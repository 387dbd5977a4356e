//! The teammate identity line shown above the composer.

use vstd::prelude::*;
use crate::text::{chars_of, law_trim_idempotent, string_from_chars, trim, trim_bounds};

verus! {

/// The display width of a character (`unicode_width::UnicodeWidthChar::width`),
/// `None` for control characters.
pub uninterp spec fn char_width(c: char) -> Option<usize>;

/// `UnicodeWidthChar::width` of unicode-width: the result is named by
/// `char_width`; as its source shows, it is `None` exactly for the control
/// characters below U+0020 and from U+007F to U+009F, and 1 for the other
/// ASCII characters.
#[verifier::external_body]
fn unicode_char_width(c: char) -> (w: Option<usize>)
    ensures
        w == char_width(c),
        (c < ' ' || ('\u{7f}' <= c && c < '\u{a0}')) <==> w is None,
        (' ' <= c && c < '\u{7f}') ==> w == Some(1usize),
{
    unicode_width::UnicodeWidthChar::width(c)
}

/// The columns a character takes in a line (control characters take none).
pub open spec fn columns(c: char) -> int {
    match char_width(c) {
        Some(w) => w as int,
        None => 0,
    }
}

/// The columns a text takes.
pub open spec fn display_width(s: Seq<char>) -> int
    decreases s.len(),
{
    if s.len() == 0 {
        0
    } else {
        display_width(s.drop_last()) + columns(s.last())
    }
}

/// `s.take(k)` is the longest prefix of `s` that fits in `max` columns.
pub open spec fn is_longest_fitting_prefix(s: Seq<char>, k: int, max: int) -> bool {
    &&& 0 <= k <= s.len()
    &&& display_width(s.take(k)) <= max
    &&& (k == s.len() || display_width(s.take(k + 1)) > max)
}

/// The longest prefix of `text` that fits in `max_cols` columns.
pub fn take_prefix_by_width(text: &str, max_cols: usize) -> (r: String)
    ensures
        exists|k: int| is_longest_fitting_prefix(text@, k, max_cols as int) && r@ == text@.take(k),
{
    let cs = chars_of(text);
    let mut cols: usize = 0;
    let mut k: usize = 0;
    while k < cs.len()
        invariant
            cs@ == text@,
            k <= cs@.len(),
            cols <= max_cols,
            cols as int == display_width(cs@.take(k as int)),
        decreases cs@.len() - k,
    {
        let w = match unicode_char_width(cs[k]) {
            Some(w) => w,
            None => 0,
        };
        proof {
            assert(cs@.take(k + 1).drop_last() =~= cs@.take(k as int));
            assert(cs@.take(k + 1).last() == cs@[k as int]);
            assert(columns(cs@[k as int]) == w as int);
        }
        if w > max_cols - cols {
            let r = string_from_chars(&cs, 0, k);
            assert(cs@.subrange(0, k as int) =~= cs@.take(k as int));
            assert(is_longest_fitting_prefix(text@, k as int, max_cols as int));
            assert(r@ == text@.take(k as int));
            return r;
        }
        cols = cols + w;
        k = k + 1;
    }
    let r = string_from_chars(&cs, 0, k);
    assert(cs@.subrange(0, k as int) =~= cs@.take(k as int));
    assert(is_longest_fitting_prefix(text@, k as int, max_cols as int));
    assert(r@ == text@.take(k as int));
    r
}

/// The view of an optional string.
pub open spec fn opt_view(o: Option<String>) -> Option<Seq<char>> {
    match o {
        Some(s) => Some(s@),
        None => None,
    }
}

/// A part of an identity as it is kept: without surrounding whitespace, and
/// absent when nothing else is left.
pub open spec fn normalized(v: Option<Seq<char>>) -> Option<Seq<char>> {
    match v {
        Some(s) => if trim(s).len() == 0 {
            None
        } else {
            Some(trim(s))
        },
        None => None,
    }
}

/// Normalizes one part of an identity.
pub fn normalize_part(value: Option<String>) -> (r: Option<String>)
    ensures
        opt_view(r) == normalized(opt_view(value)),
{
    match value {
        Some(v) => {
            let cs = chars_of(v.as_str());
            let (a, b) = trim_bounds(&cs);
            if a == b {
                None
            } else {
                Some(string_from_chars(&cs, a, b))
            }
        },
        None => None,
    }
}

/// Normalizing a part twice is normalizing it once.
pub proof fn law_normalize_idempotent(v: Option<Seq<char>>)
    ensures
        normalized(normalized(v)) == normalized(v),
{
    if let Some(s) = v {
        law_trim_idempotent(s);
    }
}

/// The identity of this session in an agent team: its team and agent names.
#[derive(Debug, PartialEq, Eq)]
pub struct TeammateIdentity {
    team: Option<String>,
    agent: Option<String>,
}

/// The text of the identity line for normalized parts.
pub open spec fn identity_text(team: Option<Seq<char>>, agent: Option<Seq<char>>) -> Option<Seq<char>> {
    match (team, agent) {
        (Some(team), Some(agent)) => Some("  "@ + agent + " - team "@ + team),
        (Some(team), None) => Some("  team "@ + team),
        (None, Some(agent)) => Some("  "@ + agent),
        (None, None) => None,
    }
}

/// The lines drawn for an identity in an area `width` columns wide: none
/// when the area is narrower than 4 columns or there is no identity, else
/// the longest prefix of the identity text that fits.
pub open spec fn lines_fit(lines: Seq<String>, text: Option<Seq<char>>, width: u16) -> bool {
    if width < 4 || text is None {
        lines.len() == 0
    } else {
        &&& lines.len() == 1
        &&& exists|k: int|
            is_longest_fitting_prefix(text->0, k, width as int) && lines[0]@ == (text->0).take(k)
    }
}

impl View for TeammateIdentity {
    /// The team and the agent.
    type V = (Option<Seq<char>>, Option<Seq<char>>);

    closed spec fn view(&self) -> Self::V {
        (opt_view(self.team), opt_view(self.agent))
    }
}

impl TeammateIdentity {
    /// Each part is normalized.
    #[verifier::type_invariant]
    spec fn is_normalized(self) -> bool {
        &&& normalized(opt_view(self.team)) == opt_view(self.team)
        &&& normalized(opt_view(self.agent)) == opt_view(self.agent)
    }

    /// An identity from a team and an agent name, each normalized.
    pub fn new(team: Option<String>, agent: Option<String>) -> (r: Self)
        ensures
            r@ == (normalized(opt_view(team)), normalized(opt_view(agent))),
    {
        proof {
            law_normalize_idempotent(opt_view(team));
            law_normalize_idempotent(opt_view(agent));
        }
        let team = normalize_part(team);
        let agent = normalize_part(agent);
        TeammateIdentity { team, agent }
    }

    /// Whether there is neither a team nor an agent.
    pub fn is_empty(&self) -> (r: bool)
        ensures
            r == (self@.0 is None && self@.1 is None),
    {
        self.team.is_none() && self.agent.is_none()
    }

    /// The identity line: `  agent - team team`, `  team team` or `  agent`.
    pub fn text(&self) -> (r: Option<String>)
        ensures
            opt_view(r) == identity_text(self@.0, self@.1),
    {
        match (&self.team, &self.agent) {
            (Some(team), Some(agent)) => {
                let mut s = String::new();
                s.append("  ");
                s.append(agent.as_str());
                s.append(" - team ");
                s.append(team.as_str());
                Some(s)
            },
            (Some(team), None) => {
                let mut s = String::new();
                s.append("  team ");
                s.append(team.as_str());
                Some(s)
            },
            (None, Some(agent)) => {
                let mut s = String::new();
                s.append("  ");
                s.append(agent.as_str());
                Some(s)
            },
            (None, None) => None,
        }
    }

    /// The lines to draw in an area `width` columns wide.
    pub fn render_lines(&self, width: u16) -> (r: Vec<String>)
        ensures
            lines_fit(r@, identity_text(self@.0, self@.1), width),
    {
        let mut lines: Vec<String> = Vec::new();
        if width < 4 {
            return lines;
        }
        match self.text() {
            Some(text) => {
                let line = take_prefix_by_width(text.as_str(), width as usize);
                lines.push(line);
                proof {
                    let k = choose|k: int|
                        is_longest_fitting_prefix(text@, k, width as int) && line@ == text@.take(k);
                    assert(lines@[0] == line);
                    assert(identity_text(self@.0, self@.1)->0 == text@);
                    assert(is_longest_fitting_prefix(text@, k, width as int) && lines@[0]@ == text@.take(k));
                }
            },
            None => {},
        }
        lines
    }

    /// The height, in lines, the identity takes in an area `width` columns wide.
    pub fn desired_height(&self, width: u16) -> (r: u16)
        ensures
            r == if width < 4 || self.is_empty_spec() {
                0u16
            } else {
                1u16
            },
    {
        let lines = self.render_lines(width);
        proof {
            self.lemma_text_iff_nonempty();
        }
        if lines.len() == 0 {
            0
        } else {
            1
        }
    }

    /// Whether there is neither a team nor an agent.
    pub open spec fn is_empty_spec(&self) -> bool {
        self@.0 is None && self@.1 is None
    }

    proof fn lemma_text_iff_nonempty(&self)
        ensures
            identity_text(self@.0, self@.1) is None <==> self.is_empty_spec(),
    {
    }
}

impl Default for TeammateIdentity {
    fn default() -> (r: Self)
        ensures
            r@ == (None::<Seq<char>>, None::<Seq<char>>),
    {
        TeammateIdentity { team: None, agent: None }
    }
}

} // verus!
