//! Errors of the editing core.
use vstd::prelude::*;
use crate::json::{nat_digits, write_nat};

verus! {

/// An editing error: a malformed input file or a request that cannot be carried out.
#[derive(Debug)]
pub enum HwpError {
    InvalidFile(String),
    RenderError(String),
}

impl HwpError {
    /// The error's message.
    pub fn message(&self) -> (s: &String)
        ensures
            s == match self {
                HwpError::InvalidFile(m) => m,
                HwpError::RenderError(m) => m,
            },
    {
        match self {
            HwpError::InvalidFile(m) => m,
            HwpError::RenderError(m) => m,
        }
    }
}

/// A request error with a fixed message.
pub fn render_error(msg: &str) -> (e: HwpError)
    ensures
        e matches HwpError::RenderError(m) && m@ == msg@,
{
    HwpError::RenderError(String::from_str(msg))
}

/// A request error whose message is `head`, the decimal digits of `n`, then `tail`.
pub fn indexed_error(head: &str, n: usize, tail: &str) -> (e: HwpError)
    ensures
        e matches HwpError::RenderError(m) && m@ == head@ + nat_digits(n as nat) + tail@,
{
    let mut m = String::from_str(head);
    write_nat(&mut m, n as u64);
    crate::text::push_str(&mut m, tail);
    HwpError::RenderError(m)
}

} // verus!
