use vstd::prelude::*;

use nu_ansi_term::Style as AnsiStyle;

use super::util::transition;
use super::util::Color;
use super::util::Style;
use super::util::TextAttributess;
use crate::data::Bookmark;
use crate::data::Facts;
use crate::data::JJData;
use crate::data::Need;
use crate::data::Shown;
use crate::text::decimal;
use crate::text::ellipsis;
use crate::text::print_ansi_truncated;
use crate::text::push_decimal;
use crate::text::truncated;

verus! {

/// Which commits without a description are left out of the count.
#[derive(Clone, Copy, Debug, PartialEq, Eq, PartialOrd, Ord, Structural)]
pub enum IgnoreEmpty {
    /// Ignore nothing: count every commit, also those without a description.
    Never,
    /// Do not count the current commit if its description is empty.
    Current,
    /// Do not count any commit without a description.
    All,
}

/// Prints the bookmarks found in the working copy's ancestors.
#[derive(Clone, Debug)]
pub struct Bookmarks {
    /// Text rendered between two bookmarks.
    pub separator: String,
    /// How bookmarks are rendered.
    pub style: Style,
    /// A suffix printed when the bookmark is behind the working copy.
    pub behind_symbol: Option<char>,
    /// The most bookmarks that are rendered.
    pub max_bookmarks: Option<usize>,
    /// The display width that a bookmark name is truncated to.
    pub max_length: Option<usize>,
    /// Whether bookmark names are put in quotes.
    pub surround_with_quotes: bool,
    /// Which commits without a description are ignored.
    pub ignore_empty_commits: IgnoreEmpty,
}

/// No commit is ignored for want of a description, unless the
/// configuration says otherwise.
pub fn default_ignore_empty_commits() -> (mode: IgnoreEmpty)
    ensures
        mode == IgnoreEmpty::Never,
{
    IgnoreEmpty::Never
}

/// The style that a bookmark module falls back on: magenta text.
pub fn default_style() -> (style: Style)
    ensures
        style == fallback_style(),
{
    Style { color: Some(Color::Magenta), bg_color: None, attributes: TextAttributess::default() }
}

/// The symbol in front of the distance of a bookmark that is behind the
/// working copy: an upwards dashed arrow.
pub fn default_behind_symbol() -> (symbol: Option<char>)
    ensures
        symbol == Some('\u{21e1}'),
{
    Some('\u{21e1}')
}

/// The text between two bookmarks: a space.
pub fn default_separator() -> (separator: String)
    ensures
        separator@ == seq![' '],
{
    proof {
        reveal_strlit(" ");
    }
    let separator = " ".to_string();
    assert(separator@ =~= seq![' ']);
    separator
}

/// How many bookmarks are shown: one.
pub fn default_max_bookmarks() -> (count: Option<usize>)
    ensures
        count == Some(1usize),
{
    Some(1)
}

/// Bookmark names are not put in quotes.
pub fn default_surround_with_quotes() -> (quoted: bool)
    ensures
        !quoted,
{
    false
}

impl Bookmarks {
    /// Whether the module is as it is when the configuration says nothing
    /// of it: one bookmark, in magenta, its name in full and without
    /// quotes, with an arrow in front of its distance.
    pub open spec fn is_default(&self) -> bool {
        &&& self.separator@ == seq![' ']
        &&& self.style == fallback_style()
        &&& self.behind_symbol == Some('\u{21e1}')
        &&& self.max_bookmarks == Some(1usize)
        &&& self.max_length is None
        &&& !self.surround_with_quotes
        &&& self.ignore_empty_commits == IgnoreEmpty::Never
    }
}

impl Default for Bookmarks {
    fn default() -> (module: Self)
        ensures
            module.is_default(),
    {
        Bookmarks {
            style: default_style(),
            behind_symbol: default_behind_symbol(),
            max_bookmarks: default_max_bookmarks(),
            separator: default_separator(),
            max_length: None,
            surround_with_quotes: false,
            ignore_empty_commits: default_ignore_empty_commits(),
        }
    }
}

/// The style that a bookmark module falls back on: magenta text.
pub open spec fn fallback_style() -> Style {
    Style { color: Some(Color::Magenta), ..Style::unset() }
}

impl Bookmarks {
    /// The style in which the bookmarks are written.
    pub open spec fn shown_style(&self) -> AnsiStyle {
        self.style.merged(Some(fallback_style())).resolved()
    }

    /// What is written for one bookmark: its name, cut to the width limit,
    /// and behind it, where the bookmark is behind the working copy, the
    /// symbol for that and the number of steps.
    pub open spec fn entry_text(&self, shown: Shown) -> Seq<char> {
        let behind = if shown.distance == 0 {
            Seq::<char>::empty()
        } else {
            match self.behind_symbol {
                Some(symbol) => seq![symbol] + decimal(shown.distance as nat),
                None => decimal(shown.distance as nat),
            }
        };
        truncated(shown.name, self.max_length, self.surround_with_quotes) + behind
    }

    /// How many of `count` bookmarks are written.
    pub open spec fn shown_count(&self, count: nat) -> nat {
        match self.max_bookmarks {
            Some(max) if count > max => max as nat,
            _ => count,
        }
    }

    /// The first `upto` bookmarks of `order`, with the separator between them.
    pub open spec fn entries_text(&self, order: Seq<Shown>, upto: int) -> Seq<char>
        decreases upto,
    {
        if upto <= 0 {
            Seq::<char>::empty()
        } else if upto == 1 {
            self.entry_text(order[0])
        } else {
            self.entries_text(order, upto - 1) + self.separator@ + self.entry_text(order[upto - 1])
        }
    }

    /// What is written for the bookmarks `order`: as many as the limit
    /// allows; then, where some are left out, the separator and an ellipsis
    /// marker; and the module separator, unless there is no bookmark at all.
    pub open spec fn listing(&self, order: Seq<Shown>, module_separator: Seq<char>) -> Seq<char> {
        let shown = self.shown_count(order.len());
        let tail = if shown < order.len() {
            self.separator@ + seq![ellipsis()] + module_separator
        } else if shown > 0 {
            module_separator
        } else {
            Seq::<char>::empty()
        };
        self.entries_text(order, shown as int) + tail
    }

    fn print_entry(&self, out: &mut String, bookmark: &Bookmark)
        ensures
            final(out)@ == old(out)@ + self.entry_text(bookmark@),
    {
        print_ansi_truncated(
            self.max_length,
            out,
            bookmark.name.as_str(),
            self.surround_with_quotes,
        );
        if bookmark.distance != 0 {
            if let Some(symbol) = self.behind_symbol {
                out.push(symbol);
            }
            push_decimal(out, bookmark.distance);
        }
        assert(out@ =~= old(out)@ + self.entry_text(bookmark@));
    }

    /// Writes the module to `out`: the codes that lead to its style, then
    /// the bookmarks in display order.
    pub fn print(
        &self,
        out: &mut String,
        data: &JJData,
        module_separator: &str,
        prev_style: &mut Option<AnsiStyle>,
    )
        requires
            data.bookmarks.bookmarks is Some,
        ensures
            final(out)@ == old(out)@ + transition(*old(prev_style), self.shown_style())
                + self.listing(data.bookmarks.bookmarks->0.order(), module_separator@),
            *final(prev_style) == Some(self.shown_style()),
    {
        let Some(list) = data.bookmarks.bookmarks.as_ref() else {
            return ;
        };
        self.style.print(out, Some(default_style()), prev_style);
        let ghost begun = out@;
        let ghost order = list.order();
        let count = list.len();
        let shown = match self.max_bookmarks {
            Some(max) => if count > max {
                max
            } else {
                count
            },
            None => count,
        };
        let mut at: usize = 0;
        while at < shown
            invariant
                at <= shown <= count,
                count == order.len(),
                order == list.order(),
                out@ == begun + self.entries_text(order, at as int),
            decreases shown - at,
        {
            let ghost written = out@;
            if at > 0 {
                out.append(self.separator.as_str());
            }
            self.print_entry(out, list.get(at));
            at += 1;
            assert(out@ =~= begun + self.entries_text(order, at as int)) by {
                if at == 1 {
                    assert(out@ =~= written + self.entry_text(order[0]));
                    assert(written =~= begun);
                } else {
                    assert(out@ =~= written + self.separator@ + self.entry_text(order[at - 1]));
                }
            }
        }
        if shown < count {
            out.append(self.separator.as_str());
            out.push('\u{2026}');
            out.append(module_separator);
        } else if shown > 0 {
            out.append(module_separator);
        }
        assert(out@ =~= begun + self.listing(order, module_separator@));
        assert(final(out)@ =~= old(out)@ + transition(*old(prev_style), self.shown_style())
            + self.listing(order, module_separator@));
    }

    /// How parsing leaves things: bookmarks that the module has already
    /// stay; else those that were searched for are taken from the facts;
    /// and where there are none yet, they are lacking. Nothing else changes.
    pub open spec fn parsed(
        &self,
        before: &JJData,
        known: &Facts,
        after: &JJData,
        left: &Facts,
        need: Need,
    ) -> bool {
        &&& after.commit == before.commit
        &&& left.description == known.description
        &&& left.parents == known.parents
        &&& if before.bookmarks.bookmarks is Some {
            &&& need == Need::Nothing
            &&& after.bookmarks == before.bookmarks
            &&& left.bookmarks == known.bookmarks
        } else if known.bookmarks is Some {
            &&& need == Need::Nothing
            &&& after.bookmarks.bookmarks == known.bookmarks
            &&& left.bookmarks is None
        } else {
            &&& need == Need::Bookmarks
            &&& after.bookmarks.bookmarks is None
            &&& left.bookmarks is None
        }
    }

    /// Takes up the bookmarks that were searched for, unless the module has
    /// them already, and says what is still lacking.
    pub fn parse(&self, data: &mut JJData, facts: &mut Facts) -> (need: Need)
        ensures
            self.parsed(old(data), old(facts), final(data), final(facts), need),
    {
        if data.bookmarks.bookmarks.is_some() {
            return Need::Nothing;
        }
        match facts.bookmarks.take() {
            Some(found) => {
                data.bookmarks.bookmarks = Some(found);
                Need::Nothing
            },
            None => Need::Bookmarks,
        }
    }
}

} // verus!
