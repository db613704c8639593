use vstd::prelude::*;

use nu_ansi_term::Style as AnsiStyle;

use super::util::transition;
use super::util::Style;
use crate::data::Facts;
use crate::data::JJData;
use crate::data::Need;
use crate::text::first_line;
use crate::text::first_line_of;
use crate::text::print_ansi_truncated;
use crate::text::truncated;

verus! {

/// Prints the description of the working-copy commit.
#[derive(Clone, Debug)]
pub struct Commit {
    /// Printed behind the text when the commit has no description of its own
    /// and the description of its parent is shown in its place.
    pub previous_message_symbol: char,
    /// The display width that the text is truncated to.
    pub max_length: Option<usize>,
    /// Show the parent's description where the commit has none.
    pub show_previous_if_empty: bool,
    /// The text printed when there is no description yet.
    pub empty_text: String,
    /// How the text is rendered.
    pub style: Style,
    /// Whether the text is put in quotes.
    pub surround_with_quotes: bool,
}

/// The text of the empty-description placeholder.
pub open spec fn empty_text_placeholder() -> Seq<char> {
    "(no description set)"@
}

/// The symbol behind a description that is the parent's: a downwards dashed arrow.
pub fn default_previous_message_symbol() -> (symbol: char)
    ensures
        symbol == '\u{21e3}',
{
    '\u{21e3}'
}

/// The width that the description is cut to: 24 columns.
pub fn default_max_length() -> (width: Option<usize>)
    ensures
        width == Some(24usize),
{
    Some(24)
}

/// The text that stands for a description that is not written yet.
pub fn default_empty_text() -> (text: String)
    ensures
        text@ == empty_text_placeholder(),
{
    "(no description set)".to_string()
}

/// The description is put in quotes.
pub fn default_surround_with_quotes() -> (quoted: bool)
    ensures
        quoted,
{
    true
}

impl Commit {
    /// Whether the module is as it is when the configuration says nothing
    /// of it: the commit's own description, in no style of its own, cut to
    /// 24 columns and in quotes.
    pub open spec fn is_default(&self) -> bool {
        &&& !self.show_previous_if_empty
        &&& self.style == Style::unset()
        &&& self.max_length == Some(24usize)
        &&& self.empty_text@ == empty_text_placeholder()
        &&& self.surround_with_quotes
        &&& self.previous_message_symbol == '\u{21e3}'
    }
}

impl Default for Commit {
    fn default() -> (module: Self)
        ensures
            module.is_default(),
    {
        Commit {
            show_previous_if_empty: false,
            style: Style::default(),
            max_length: default_max_length(),
            empty_text: default_empty_text(),
            surround_with_quotes: true,
            previous_message_symbol: default_previous_message_symbol(),
        }
    }
}

/// A description that was settled on, and whether it is the parent's.
pub struct Chosen {
    pub text: Seq<char>,
    pub ahead: bool,
}

impl Commit {
    /// The style in which the text is written.
    pub open spec fn shown_style(&self) -> AnsiStyle {
        self.style.merged(None).resolved()
    }

    /// What is written for the description `desc`: its first line, or the
    /// placeholder where it is empty, cut to the width limit; the symbol
    /// for a description taken from the parent where `ahead` is set; and
    /// the module separator.
    pub open spec fn text(
        &self,
        desc: Seq<char>,
        ahead: bool,
        module_separator: Seq<char>,
    ) -> Seq<char> {
        let line = if desc.len() > 0 {
            first_line(desc)
        } else {
            self.empty_text@
        };
        let marker = if ahead {
            seq![self.previous_message_symbol]
        } else {
            Seq::<char>::empty()
        };
        truncated(line, self.max_length, self.surround_with_quotes) + marker + module_separator
    }

    /// Writes the module to `out`: the codes that lead to its style, then
    /// the text. Nothing is written while no description was looked up.
    pub fn print(
        &self,
        out: &mut String,
        data: &JJData,
        module_separator: &str,
        prev_style: &mut Option<AnsiStyle>,
    )
        ensures
            match data.commit.desc {
                Some(desc) => {
                    &&& final(out)@ == old(out)@ + transition(
                        *old(prev_style),
                        self.shown_style(),
                    ) + self.text(desc@, data.commit.ahead, module_separator@)
                    &&& *final(prev_style) == Some(self.shown_style())
                },
                None => final(out)@ == old(out)@ && *final(prev_style) == *old(prev_style),
            },
    {
        let Some(desc) = data.commit.desc.as_ref() else {
            return ;
        };
        let line = first_line_of(desc.as_str());
        self.style.print(out, None, prev_style);
        let ghost begun = out@;
        if !desc.as_str().is_empty() {
            print_ansi_truncated(self.max_length, out, line, self.surround_with_quotes);
        } else {
            print_ansi_truncated(
                self.max_length,
                out,
                self.empty_text.as_str(),
                self.surround_with_quotes,
            );
        }
        if data.commit.ahead {
            out.push(self.previous_message_symbol);
        }
        out.append(module_separator);
        assert(out@ =~= begun + self.text(desc@, data.commit.ahead, module_separator@));
        assert(final(out)@ =~= old(out)@ + transition(*old(prev_style), self.shown_style())
            + self.text(desc@, data.commit.ahead, module_separator@));
    }

    /// What `parse` lacks: nothing once a description is there; else the
    /// description of the working-copy commit; and, where that is empty and
    /// the parent's is shown in its place, the descriptions of the parents.
    pub open spec fn lacking(&self, data: &JJData, facts: &Facts) -> Need {
        if data.commit.desc is Some {
            Need::Nothing
        } else {
            match facts.description {
                None => Need::Description,
                Some(None) => Need::Nothing,
                Some(Some(description)) => if description@.len() == 0
                    && self.show_previous_if_empty && facts.parents is None {
                    Need::Parents
                } else {
                    Need::Nothing
                },
            }
        }
    }

    /// The description that `parse` settles on, where it settles on one:
    /// that of the commit; or, where that is empty and the parent's is
    /// shown in its place, that of the only parent.
    pub open spec fn chosen(&self, facts: &Facts) -> Option<Chosen> {
        match facts.description {
            Some(Some(description)) => if description@.len() == 0 && self.show_previous_if_empty {
                match facts.parents {
                    Some(parents) if parents@.len() == 1 => Some(
                        Chosen { text: parents@[0]@, ahead: true },
                    ),
                    _ => None,
                }
            } else {
                Some(Chosen { text: description@, ahead: false })
            },
            _ => None,
        }
    }

    /// How parsing leaves things: a description that is there stays; else
    /// the one that is settled on is put in, with the mark of the parent
    /// where it is the parent's. Nothing else changes.
    pub open spec fn parsed(
        &self,
        before: &JJData,
        known: &Facts,
        after: &JJData,
        need: Need,
    ) -> bool {
        &&& need == self.lacking(before, known)
        &&& after.bookmarks == before.bookmarks
        &&& after.commit.warnings == before.commit.warnings
        &&& after.commit.diff == before.commit.diff
        &&& after.commit.commit_id == before.commit.commit_id
        &&& after.commit.change_id == before.commit.change_id
        &&& if before.commit.desc is None && self.chosen(known) is Some {
            &&& after.commit.desc is Some
            &&& after.commit.desc->0@ == self.chosen(known)->0.text
            &&& after.commit.ahead == (self.chosen(known)->0.ahead || before.commit.ahead)
        } else {
            after.commit == before.commit
        }
    }

    /// Settles the description that is shown, from what is known of the
    /// working-copy commit, and says what is still lacking. A description
    /// that is there already stays. Where the workspace has no working-copy
    /// commit, or the parent's description is wanted and there is not
    /// exactly one parent, none is settled.
    pub fn parse(&self, data: &mut JJData, facts: &Facts) -> (need: Need)
        ensures
            self.parsed(old(data), facts, final(data), need),
    {
        if data.commit.desc.is_some() {
            return Need::Nothing;
        }
        let description = match &facts.description {
            None => {
                return Need::Description;
            },
            Some(None) => {
                return Need::Nothing;
            },
            Some(Some(description)) => description,
        };
        if description.as_str().is_empty() && self.show_previous_if_empty {
            let Some(parents) = &facts.parents else {
                return Need::Parents;
            };
            if parents.len() != 1 {
                return Need::Nothing;
            }
            data.commit.desc = Some(parents[0].clone());
            data.commit.ahead = true;
        } else {
            data.commit.desc = Some(description.clone());
        }
        Need::Nothing
    }
}

} // verus!
