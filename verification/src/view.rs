//! How a listing is shown, and the cells of it.

use crate::pbs::{Job, RateCard};
use crate::reals::{Figure, Fill, Real, Share};
use crate::fmt;
use crate::paint;
use crate::reals;
use crate::text;
use vstd::prelude::*;

verus! {

/// How a listing is shown.
pub struct Viewport<'a> {
    pub color: bool,
    pub ascii: bool,
    pub width: usize,
    pub long: bool,
    pub show_points: bool,
    pub rates: &'a RateCard,
    pub tz: i64,
    pub now: i64,
}

/// A job of a listing, with the numbers that are shown of it. Which of them are shown
/// depends on the job.
pub struct Entry<'a> {
    pub job: &'a Job,
    /// The share of the requested walltime that is used.
    pub share: Share,
    /// How far the bar in the table is filled.
    pub bar: Fill,
    /// How far the bar on the card is filled.
    pub card_bar: Fill,
    /// The points per hour.
    pub rate: Figure,
    /// The points spent so far.
    pub spent: Figure,
    /// The points reserved by the walltime limit.
    pub reserved: Figure,
    /// The load, where the job's reading is a number.
    pub load: Option<Load>,
}

/// The load of a job.
pub struct Load {
    /// The percentage of one core, without decimals.
    pub percent: String,
    /// The number of cores, with one decimal.
    pub cores: String,
}

// ---------------------------------------------------------------------------
// cells
// ---------------------------------------------------------------------------

/// The mark before a state.
pub open spec fn bullet_text(ascii: bool) -> Seq<char> {
    if ascii {
        "*"@
    } else {
        "●"@
    }
}

/// The mark before a warning.
pub open spec fn warn_text(ascii: bool) -> Seq<char> {
    if ascii {
        "!"@
    } else {
        "⚠"@
    }
}

/// The separator between the parts of a line.
pub open spec fn sep_text(v: Viewport) -> Seq<char> {
    paint::dimmed(
        v.color,
        if v.ascii {
            " | "@
        } else {
            " · "@
        },
    )
}

/// The colour of a bar: red from 0.9, yellow from 0.7, green below.
pub open spec fn bar_code(share: Real) -> Seq<char> {
    if share.reaches(Real { bits: reals::BITS_NINE_TENTHS }) {
        "31"@
    } else if share.reaches(Real { bits: reals::BITS_SEVEN_TENTHS }) {
        "33"@
    } else {
        "32"@
    }
}

/// A bar between its ends, in the colour `code`.
pub open spec fn framed_bar(v: Viewport, code: Seq<char>, fill: Fill, width: nat) -> Seq<char> {
    paint::dimmed(
        v.color,
        if v.ascii {
            "["@
        } else {
            "▕"@
        },
    ) + paint::painted(v.color, code, fmt::bar_text(fill, width, v.ascii)) + paint::dimmed(
        v.color,
        if v.ascii {
            "]"@
        } else {
            "▏"@
        },
    )
}

/// A bar between its ends, coloured by the share that it shows.
pub open spec fn bar_cell_text(v: Viewport, share: Real, fill: Fill, width: nat) -> Seq<char> {
    framed_bar(v, bar_code(share), fill, width)
}

impl<'a> Viewport<'a> {
    /// `s` in the colour `code`.
    pub fn c(&self, code: &str, s: &str) -> (r: String)
        ensures
            r@ == paint::painted(self.color, code@, s@),
    {
        paint::paint(self.color, code, s)
    }

    /// `s` in the faint colour.
    pub fn dim(&self, s: &str) -> (r: String)
        ensures
            r@ == paint::dimmed(self.color, s@),
    {
        self.c("2", s)
    }

    /// The mark before a state.
    pub fn bullet(&self) -> (r: &'static str)
        ensures
            r@ == bullet_text(self.ascii),
    {
        if self.ascii {
            "*"
        } else {
            "●"
        }
    }

    /// The mark before a warning.
    pub fn warn_sign(&self) -> (r: &'static str)
        ensures
            r@ == warn_text(self.ascii),
    {
        if self.ascii {
            "!"
        } else {
            "⚠"
        }
    }

    /// The separator between the parts of a line.
    pub fn sep(&self) -> (r: String)
        ensures
            r@ == sep_text(*self),
    {
        self.dim(
            if self.ascii {
                " | "
            } else {
                " · "
            },
        )
    }

    /// Colour a walltime bar by how close the job is to being killed.
    pub fn bar_color(&self, frac: &Real) -> (r: &'static str)
        ensures
            r@ == bar_code(*frac),
    {
        if frac.ge(&Real { bits: reals::BITS_NINE_TENTHS }) {
            "31"
        } else if frac.ge(&Real { bits: reals::BITS_SEVEN_TENTHS }) {
            "33"
        } else {
            "32"
        }
    }

    /// A bar between its ends. Where there is no share to show, the bar is faint and empty.
    pub fn bar_cell(&self, frac: Option<(&Real, &Fill)>, width: usize) -> (r: String)
        ensures
            r@ == match frac {
                Some(f) => bar_cell_text(*self, *f.0, *f.1, width as nat),
                None => framed_bar(*self, "2"@, (Fill { cells: 0, eighths: 0 }), width as nat),
            },
    {
        let mut s = self.dim(
            if self.ascii {
                "["
            } else {
                "▕"
            },
        );
        let cells = match frac {
            Some(f) => self.c(self.bar_color(f.0), fmt::bar(f.1, width, self.ascii).as_str()),
            None => self.dim(fmt::bar(&Fill { cells: 0, eighths: 0 }, width, self.ascii).as_str()),
        };
        s.append(cells.as_str());
        s.append(
            self.dim(
                if self.ascii {
                    "]"
                } else {
                    "▏"
                },
            ).as_str(),
        );
        s
    }
}

/// `5` not `5.0`, but keep a decimal when there is one.
pub open spec fn trimmed_figure(v: Figure) -> Seq<char> {
    if v.near_whole {
        v.whole@
    } else {
        v.tenth@
    }
}

/// `5` not `5.0`, but keep a decimal when there is one.
pub fn trim_num(v: &Figure) -> (r: String)
    ensures
        r@ == trimmed_figure(*v),
{
    if v.near_whole {
        v.whole.clone()
    } else {
        v.tenth.clone()
    }
}

/// Adds a part.
pub(crate) fn push_part(parts: &mut Vec<String>, s: String)
    ensures
        text::texts(final(parts)@) == text::texts(old(parts)@).push(s@),
{
    parts.push(s);
}

} // verus!
