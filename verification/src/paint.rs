//! Colours of the terminal.

use vstd::prelude::*;

verus! {

/// `s` in the colour `code`, where colours are on. Nothing is put round an empty text.
pub open spec fn painted(on: bool, code: Seq<char>, s: Seq<char>) -> Seq<char> {
    if on && s.len() > 0 {
        "\x1b["@ + code + "m"@ + s + "\x1b[0m"@
    } else {
        s
    }
}

/// `s` in the faint colour.
pub open spec fn dimmed(on: bool, s: Seq<char>) -> Seq<char> {
    painted(on, "2"@, s)
}

/// `s` in the colour `code`, where colours are on.
pub fn paint(on: bool, code: &str, s: &str) -> (r: String)
    ensures
        r@ == painted(on, code@, s@),
{
    if on && !s.is_empty() {
        let mut t = "\x1b[".to_owned();
        t.append(code);
        t.append("m");
        t.append(s);
        t.append("\x1b[0m");
        t
    } else {
        s.to_owned()
    }
}

/// The colour with the number `i`; there are six, which come round.
pub open spec fn hue(i: int) -> Seq<char> {
    let k = i % 6;
    if k == 0 {
        "36"@
    } else if k == 1 {
        "35"@
    } else if k == 2 {
        "33"@
    } else if k == 3 {
        "32"@
    } else if k == 4 {
        "94"@
    } else {
        "95"@
    }
}

/// The colour with the number `i`.
pub fn hue_of(i: usize) -> (r: &'static str)
    ensures
        r@ == hue(i as int),
{
    let k: usize = i % 6;
    if k == 0 {
        "36"
    } else if k == 1 {
        "35"
    } else if k == 2 {
        "33"
    } else if k == 3 {
        "32"
    } else if k == 4 {
        "94"
    } else {
        "95"
    }
}

/// Are colours on?
#[derive(Clone, Copy)]
pub struct Pal {
    pub on: bool,
}

impl Pal {
    /// `s` in the colour `code`.
    pub fn c(&self, code: &str, s: &str) -> (r: String)
        ensures
            r@ == painted(self.on, code@, s@),
    {
        paint(self.on, code, s)
    }

    /// `s` in the faint colour.
    pub fn dim(&self, s: &str) -> (r: String)
        ensures
            r@ == dimmed(self.on, s@),
    {
        self.c("2", s)
    }
}

} // verus!
