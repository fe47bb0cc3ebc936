//! The interpreter's console boundary: one trusted wrapper per `std::io`
//! call.  Nothing is promised of them — what arrives on standard input is
//! the console's choice, and writes are side effects the model tracks
//! separately (the executor keeps its own transcript of written text).

use std::io::Write;
use vstd::prelude::*;

verus! {

/// Relies on `std::io::Stdin::read_line`: blocks until one line is
/// available and returns it, trailing newline included.  At end of input,
/// or when the read fails, the line is empty.
#[verifier::external_body]
pub(crate) fn read_console_line() -> (r: String) {
    let mut buf = String::new();
    match std::io::stdin().read_line(&mut buf) {
        Ok(_) => buf,
        Err(_) => String::new(),
    }
}

/// Relies on `std::io::Stdout::write_fmt` (through the `write!` macro):
/// sends the text to standard output.
#[verifier::external_body]
pub(crate) fn console_write(s: &str) {
    let mut out = std::io::stdout();
    let _ = write!(out, "{}", s);
}

/// Relies on `std::io::Stdout::flush`: makes written text visible before
/// any later blocking read of standard input.
#[verifier::external_body]
pub(crate) fn console_flush() {
    let _ = std::io::stdout().flush();
}

} // verus!
