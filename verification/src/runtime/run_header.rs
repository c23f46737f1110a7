//! Run headers: one decorated line written at the top of a log session.
use crate::text::{dec, lemma_utf8_concat, lemma_utf8_repeat_ascii, push_decimal, push_repeat, push_str, repeat_char, utf8};
use vstd::prelude::*;
use vstd::string::*;

verus! {

/// A run header is a single decorated line written as raw bytes at the top
/// of a log session, before structured records; it bypasses the record
/// pipeline, so it is visible regardless of the configured level.
#[derive(Debug)]
pub struct RunHeader {
    /// Label shown in the centre of the header line.
    pub title: String,
    /// Append `(pid=N)` to the label when `true`.
    pub show_pid: bool,
    /// Total target width of the line; the `=` padding fills the rest.
    pub width: usize,
}

impl Clone for RunHeader {
    fn clone(&self) -> (r: Self)
        ensures
            r == *self,
    {
        RunHeader { title: self.title.clone(), show_pid: self.show_pid, width: self.width }
    }
}

/// The centre of the header: ` title (pid=N) ` or ` title `.
pub open spec fn header_inner(title: Seq<char>, show_pid: bool, pid: u32) -> Seq<char> {
    if show_pid {
        " "@ + title + " (pid="@ + dec(pid as nat) + ") "@
    } else {
        " "@ + title + " "@
    }
}

/// Padding around the centre: what is left of `width` after the centre's
/// bytes, or 4 when that would leave fewer than 5.
pub open spec fn header_padding(inner_bytes: nat, width: nat) -> nat {
    if inner_bytes + 4 < width {
        (width - inner_bytes) as nat
    } else {
        4
    }
}

/// The header line: `=` on both sides of the centre, the extra one on the right.
pub open spec fn header_text(title: Seq<char>, show_pid: bool, width: nat, pid: u32) -> Seq<char> {
    let inner = header_inner(title, show_pid, pid);
    let padding = header_padding(utf8(inner).len(), width);
    repeat_char('=', padding / 2) + inner + repeat_char('=', (padding - padding / 2) as nat)
}

impl RunHeader {
    /// A header that includes the process ID.
    pub fn new(title: String) -> (h: Self)
        ensures
            h == (RunHeader { title, show_pid: true, width: 72 }),
    {
        RunHeader { title, show_pid: true, width: 72 }
    }

    /// A header without a PID annotation.
    pub fn without_pid(title: String) -> (h: Self)
        ensures
            h == (RunHeader { title, show_pid: false, width: 72 }),
    {
        RunHeader { title, show_pid: false, width: 72 }
    }

    /// Set the total rendered width.
    pub fn with_width(self, width: usize) -> (h: Self)
        ensures
            h == (RunHeader { width, ..self }),
    {
        let mut h = self;
        h.width = width;
        h
    }

    /// The header line for the process with id `pid`.
    pub fn render(&self, pid: u32) -> (s: String)
        ensures
            s@ == header_text(self.title@, self.show_pid, self.width as nat, pid),
    {
        let mut inner = String::new();
        push_str(&mut inner, " ");
        push_str(&mut inner, self.title.as_str());
        if self.show_pid {
            push_str(&mut inner, " (pid=");
            push_decimal(&mut inner, pid as u64);
            push_str(&mut inner, ") ");
        } else {
            push_str(&mut inner, " ");
        }
        assert(inner@ =~= header_inner(self.title@, self.show_pid, pid));
        let inner_bytes = inner.as_str().as_bytes();
        let inner_len = inner_bytes.len();
        assert(inner_len == utf8(inner@).len());
        let padding = if inner_len < self.width && self.width - inner_len > 4 {
            self.width - inner_len
        } else {
            4
        };
        let left = padding / 2;
        let right = padding - left;
        let mut s = String::new();
        push_repeat(&mut s, '=', left);
        push_str(&mut s, inner.as_str());
        push_repeat(&mut s, '=', right);
        assert(s@ =~= header_text(self.title@, self.show_pid, self.width as nat, pid));
        s
    }
}

/// The header line is `width` bytes wide when its centre leaves room for
/// more than four `=`; otherwise it is the centre with two `=` on each
/// side. The two borders differ by at most one `=`, the longer on the
/// right.
pub proof fn lemma_header_width(title: Seq<char>, show_pid: bool, width: nat, pid: u32)
    ensures
        ({
            let inner = utf8(header_inner(title, show_pid, pid)).len();
            utf8(header_text(title, show_pid, width, pid)).len() == if inner + 4 < width {
                width
            } else {
                inner + 4
            }
        }),
        ({
            let padding = header_padding(utf8(header_inner(title, show_pid, pid)).len(), width);
            padding / 2 <= padding - padding / 2 <= padding / 2 + 1
        }),
{
    let inner = header_inner(title, show_pid, pid);
    let padding = header_padding(utf8(inner).len(), width);
    let left = repeat_char('=', padding / 2);
    let right = repeat_char('=', (padding - padding / 2) as nat);
    lemma_utf8_concat(left, inner);
    lemma_utf8_concat(left + inner, right);
    lemma_utf8_repeat_ascii('=', padding / 2);
    lemma_utf8_repeat_ascii('=', (padding - padding / 2) as nat);
}

/// The bytes written at the start of a session: a blank line first when the
/// file already holds something, then the header line and a newline.
pub open spec fn header_block_text(existing_size: u64, header: Seq<char>) -> Seq<char> {
    (if existing_size > 0 {
        "\n"@
    } else {
        Seq::empty()
    }) + header + "\n"@
}

/// The block that opens a session in a file holding `existing_size` bytes.
pub fn header_block(existing_size: u64, header_text: String) -> (b: String)
    ensures
        b@ == header_block_text(existing_size, header_text@),
{
    let mut b = String::new();
    if existing_size > 0 {
        push_str(&mut b, "\n");
    }
    push_str(&mut b, header_text.as_str());
    push_str(&mut b, "\n");
    assert(b@ =~= header_block_text(existing_size, header_text@));
    b
}

} // verus!
