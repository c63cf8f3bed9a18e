//! Finding tables and cells by position.
use vstd::prelude::*;
use crate::document_core::DocumentCore;
use crate::error::HwpError;
use crate::json::{nat_digits, write_nat};
use crate::text::push_str;
use crate::model::{Cell, Control};

verus! {

/// The index of the first table among `cs`, if any.
pub open spec fn first_table_idx(cs: Seq<Control>) -> Option<int>
    decreases cs.len(),
{
    if cs.len() == 0 {
        None
    } else {
        match first_table_idx(cs.drop_last()) {
            Some(i) => Some(i),
            None => if cs.last() is Table {
                Some(cs.len() - 1)
            } else {
                None
            },
        }
    }
}

/// The index of the first cell at `(row, col)`, if any.
pub open spec fn first_cell_idx(cells: Seq<Cell>, row: u16, col: u16) -> Option<int>
    decreases cells.len(),
{
    if cells.len() == 0 {
        None
    } else {
        match first_cell_idx(cells.drop_last(), row, col) {
            Some(i) => Some(i),
            None => if cells.last().row == row && cells.last().col == col {
                Some(cells.len() - 1)
            } else {
                None
            },
        }
    }
}

/// The table control to use: `ctrl` when it is a table, else the first table.
pub open spec fn table_choice(cs: Seq<Control>, ctrl: int) -> Option<int> {
    if 0 <= ctrl < cs.len() && cs[ctrl] is Table {
        Some(ctrl)
    } else {
        first_table_idx(cs)
    }
}

pub proof fn lemma_first_table_idx(cs: Seq<Control>)
    ensures
        first_table_idx(cs) matches Some(i) ==> 0 <= i < cs.len() && cs[i] is Table && forall|j: int| 0 <= j < i ==> !(cs[j] is Table),
        first_table_idx(cs) is None ==> forall|j: int| 0 <= j < cs.len() ==> !(cs[j] is Table),
    decreases cs.len(),
{
    if cs.len() > 0 {
        lemma_first_table_idx(cs.drop_last());
        assert forall|j: int| 0 <= j < cs.len() - 1 implies cs[j] == cs.drop_last()[j] by {}
    }
}

pub proof fn lemma_first_cell_idx(cells: Seq<Cell>, row: u16, col: u16)
    ensures
        first_cell_idx(cells, row, col) matches Some(i) ==> 0 <= i < cells.len() && cells[i].row == row && cells[i].col == col
            && forall|j: int| 0 <= j < i ==> !(cells[j].row == row && cells[j].col == col),
        first_cell_idx(cells, row, col) is None ==> forall|j: int| 0 <= j < cells.len() ==> !(cells[j].row == row && cells[j].col == col),
    decreases cells.len(),
{
    if cells.len() > 0 {
        lemma_first_cell_idx(cells.drop_last(), row, col);
        assert forall|j: int| 0 <= j < cells.len() - 1 implies cells[j] == cells.drop_last()[j] by {}
    }
}

/// The first index at which `cs` holds a table.
pub fn first_table(cs: &Vec<Control>) -> (r: Option<usize>)
    ensures
        match r {
            Some(i) => first_table_idx(cs@) == Some(i as int),
            None => first_table_idx(cs@) is None,
        },
{
    proof {
        lemma_first_table_idx(cs@);
    }
    let mut i: usize = 0;
    while i < cs.len()
        invariant
            i <= cs@.len(),
            forall|j: int| 0 <= j < i ==> !(cs@[j] is Table),
        decreases cs.len() - i,
    {
        if let Control::Table(_) = &cs[i] {
            proof {
                lemma_first_table_idx(cs@);
                if let Some(k) = first_table_idx(cs@) {
                    assert(k == i);
                }
            }
            return Some(i);
        }
        i += 1;
    }
    None
}

/// The first index at which `cells` holds the cell at `(row, col)`.
pub fn first_cell(cells: &Vec<Cell>, row: u16, col: u16) -> (r: Option<usize>)
    ensures
        match r {
            Some(i) => first_cell_idx(cells@, row, col) == Some(i as int),
            None => first_cell_idx(cells@, row, col) is None,
        },
{
    proof {
        lemma_first_cell_idx(cells@, row, col);
    }
    let mut i: usize = 0;
    while i < cells.len()
        invariant
            i <= cells@.len(),
            forall|j: int| 0 <= j < i ==> !(cells@[j].row == row && cells@[j].col == col),
        decreases cells.len() - i,
    {
        if cells[i].row == row && cells[i].col == col {
            proof {
                lemma_first_cell_idx(cells@, row, col);
                if let Some(k) = first_cell_idx(cells@, row, col) {
                    assert(k == i);
                }
            }
            return Some(i);
        }
        i += 1;
    }
    None
}

/// The error for a paragraph position that does not exist.
pub open spec fn bad_position_text(f: Seq<char>, s: nat, tp: nat) -> Seq<char> {
    f + ": 좌표 부적합 (sec="@ + nat_digits(s) + ", table_para="@ + nat_digits(tp) + ")"@
}

/// The error for a paragraph without a table control.
pub open spec fn no_table_text(f: Seq<char>, tp: nat, n: nat) -> Seq<char> {
    f + ": table_para="@ + nat_digits(tp) + " 에 Table control 없음 (controls_len="@ + nat_digits(n) + ")"@
}

/// The error for a table without a cell at `(row, col)`.
pub open spec fn no_cell_text(row: nat, col: nat) -> Seq<char> {
    "find_cell_idx: ("@ + nat_digits(row) + ", "@ + nat_digits(col) + ") 셀 없음"@
}

fn bad_position_error(f: &str, s: usize, tp: usize) -> (e: HwpError)
    ensures
        e matches HwpError::RenderError(m) && m@ == bad_position_text(f@, s as nat, tp as nat),
{
    let mut m = String::from_str(f);
    push_str(&mut m, ": 좌표 부적합 (sec=");
    write_nat(&mut m, s as u64);
    push_str(&mut m, ", table_para=");
    write_nat(&mut m, tp as u64);
    push_str(&mut m, ")");
    HwpError::RenderError(m)
}

fn no_table_error(f: &str, tp: usize, n: usize) -> (e: HwpError)
    ensures
        e matches HwpError::RenderError(m) && m@ == no_table_text(f@, tp as nat, n as nat),
{
    let mut m = String::from_str(f);
    push_str(&mut m, ": table_para=");
    write_nat(&mut m, tp as u64);
    push_str(&mut m, " 에 Table control 없음 (controls_len=");
    write_nat(&mut m, n as u64);
    push_str(&mut m, ")");
    HwpError::RenderError(m)
}

fn no_cell_error(row: u16, col: u16) -> (e: HwpError)
    ensures
        e matches HwpError::RenderError(m) && m@ == no_cell_text(row as nat, col as nat),
{
    let mut m = String::from_str("find_cell_idx: (");
    write_nat(&mut m, row as u64);
    push_str(&mut m, ", ");
    write_nat(&mut m, col as u64);
    push_str(&mut m, ") 셀 없음");
    HwpError::RenderError(m)
}

impl DocumentCore {
    /// The paragraph `(s, tp)` exists.
    pub open spec fn para_ok(self, s: int, tp: int) -> bool {
        0 <= s < self.section_count() && 0 <= tp < self.body(s).len()
    }

    /// The table control `find_table_ctrl_idx` picks at `(s, tp)`.
    pub open spec fn table_ctrl_index(self, s: int, tp: int) -> Option<int> {
        if self.para_ok(s, tp) {
            first_table_idx(self.body(s)[tp].controls@)
        } else {
            None
        }
    }

    /// The table control `find_cell_idx` uses at `(s, tp)` given `ctrl`.
    pub open spec fn table_for_cell(self, s: int, tp: int, ctrl: int) -> Option<int> {
        if self.para_ok(s, tp) {
            table_choice(self.body(s)[tp].controls@, ctrl)
        } else {
            None
        }
    }

    /// The cell index `find_cell_idx` finds.
    pub open spec fn cell_index(self, s: int, tp: int, ctrl: int, row: u16, col: u16) -> Option<int> {
        match self.table_for_cell(s, tp, ctrl) {
            Some(t) => first_cell_idx(self.table_at(s, tp, t).cells@, row, col),
            None => None,
        }
    }

    /// The message `find_table_ctrl_idx` fails with at `(s, tp)`.
    pub open spec fn table_ctrl_error(self, s: int, tp: int) -> Seq<char> {
        if !self.para_ok(s, tp) {
            bad_position_text("find_table_ctrl_idx"@, s as nat, tp as nat)
        } else {
            no_table_text("find_table_ctrl_idx"@, tp as nat, self.body(s)[tp].controls@.len())
        }
    }

    /// The message `find_cell_idx` fails with.
    pub open spec fn cell_idx_error(self, s: int, tp: int, ctrl: int, row: u16, col: u16) -> Seq<char> {
        if !self.para_ok(s, tp) {
            bad_position_text("find_cell_idx"@, s as nat, tp as nat)
        } else if self.table_for_cell(s, tp, ctrl) is None {
            no_table_text("find_cell_idx"@, tp as nat, self.body(s)[tp].controls@.len())
        } else {
            no_cell_text(row as nat, col as nat)
        }
    }

    /// The index, among the controls of paragraph `(section_idx, table_para_idx)`, of its
    /// first table.
    pub fn find_table_ctrl_idx(&self, section_idx: usize, table_para_idx: usize) -> (r: Result<usize, HwpError>)
        ensures
            r is Ok <==> self.table_ctrl_index(section_idx as int, table_para_idx as int) is Some,
            r matches Ok(i) ==> self.table_ctrl_index(section_idx as int, table_para_idx as int) == Some(i as int),
            r matches Err(e) ==> (e matches HwpError::RenderError(m) && m@ == self.table_ctrl_error(
                section_idx as int,
                table_para_idx as int,
            )),
    {
        if section_idx >= self.document.sections.len() || table_para_idx >= self.document.sections[section_idx].paragraphs.len() {
            return Err(bad_position_error("find_table_ctrl_idx", section_idx, table_para_idx));
        }
        let cs = &self.document.sections[section_idx].paragraphs[table_para_idx].controls;
        match first_table(cs) {
            Some(i) => Ok(i),
            None => Err(no_table_error("find_table_ctrl_idx", table_para_idx, cs.len())),
        }
    }

    /// The linear index, in the table's cell list, of the cell at `(row, col)`. The table is
    /// control `control_idx` when that is a table, else the paragraph's first table.
    pub fn find_cell_idx(
        &self,
        section_idx: usize,
        table_para_idx: usize,
        control_idx: usize,
        row: u16,
        col: u16,
    ) -> (r: Result<usize, HwpError>)
        ensures
            r is Ok <==> self.cell_index(section_idx as int, table_para_idx as int, control_idx as int, row, col) is Some,
            r matches Ok(i) ==> self.cell_index(section_idx as int, table_para_idx as int, control_idx as int, row, col) == Some(i as int),
            r matches Err(e) ==> (e matches HwpError::RenderError(m) && m@ == self.cell_idx_error(
                section_idx as int,
                table_para_idx as int,
                control_idx as int,
                row,
                col,
            )),
    {
        if section_idx >= self.document.sections.len() || table_para_idx >= self.document.sections[section_idx].paragraphs.len() {
            return Err(bad_position_error("find_cell_idx", section_idx, table_para_idx));
        }
        let cs = &self.document.sections[section_idx].paragraphs[table_para_idx].controls;
        let direct = control_idx < cs.len() && match &cs[control_idx] {
            Control::Table(_) => true,
            _ => false,
        };
        let t_idx = if direct {
            control_idx
        } else {
            match first_table(cs) {
                Some(i) => i,
                None => {
                    return Err(no_table_error("find_cell_idx", table_para_idx, cs.len()));
                },
            }
        };
        proof {
            lemma_first_table_idx(cs@);
        }
        let t = self.table_ref(section_idx, table_para_idx, t_idx);
        match first_cell(&t.cells, row, col) {
            Some(i) => Ok(i),
            None => Err(no_cell_error(row, col)),
        }
    }
}

} // verus!
