use vstd::prelude::*;

pub mod bookmarks;
pub mod commit;
pub mod util;

use nu_ansi_term::Style as AnsiStyle;

use self::bookmarks::Bookmarks;
use self::commit::Commit;
use self::util::ansi_prefix;
use self::util::transition;
use self::util::Glob;
use self::util::Style;
use crate::data::Facts;
use crate::data::JJData;
use crate::data::Need;

verus! {

/// How the search for bookmarks is bounded.
#[derive(Debug)]
pub struct BookmarkConfig {
    /// How many steps back from the working-copy commit bookmarks are looked for.
    pub search_depth: usize,
    /// Bookmarks whose name one of these patterns matches are left out.
    pub exclude: Vec<Glob>,
}

impl BookmarkConfig {
    /// Whether the search is bounded as it is when the configuration says
    /// nothing of it: a hundred steps back, no bookmark left out.
    pub open spec fn is_default(&self) -> bool {
        self.search_depth == 100 && self.exclude@ == Seq::<Glob>::empty()
    }
}

impl Default for BookmarkConfig {
    fn default() -> (config: Self)
        ensures
            config.is_default(),
    {
        BookmarkConfig { search_depth: default_search_depth(), exclude: Vec::new() }
    }
}

/// The text behind each module, unless the configuration names another: a space.
pub fn default_separator() -> (separator: String)
    ensures
        separator@ == seq![' '],
{
    proof {
        reveal_strlit(" ");
    }
    let separator = " ".to_string();
    assert(separator@ =~= seq![' ']);
    separator
}

/// Whether the style is reset behind the last module, unless the
/// configuration says otherwise: it is.
pub fn default_reset_color() -> (reset: bool)
    ensures
        reset,
{
    true
}

/// How many steps back bookmarks are looked for, unless the configuration
/// names another depth.
pub fn default_search_depth() -> (depth: usize)
    ensures
        depth == 100,
{
    100
}

/// A module that shows something of the repository.
#[derive(Debug)]
pub enum ModuleConfig {
    Bookmarks(Bookmarks),
    Commit(Commit),
}

/// What holds for all modules.
#[derive(Debug)]
pub struct GlobalConfig {
    /// Text that is written behind each module.
    pub module_separator: String,
    /// The milliseconds after which the prompt is given up.
    pub timeout: Option<u64>,
    /// How bookmarks are searched for.
    pub bookmarks: BookmarkConfig,
    /// Whether the style is reset behind the last module.
    pub reset_color: bool,
}

/// The modules of the prompt, in the order in which they are shown.
#[derive(Debug)]
pub struct Config {
    pub global: GlobalConfig,
    pub modules: Vec<ModuleConfig>,
}

/// The modules that are shown, unless the configuration names others: the
/// bookmarks, then the commit's description.
pub fn default_modules() -> (modules: Vec<ModuleConfig>)
    ensures
        are_default(modules@),
{
    let mut modules: Vec<ModuleConfig> = Vec::new();
    modules.push(ModuleConfig::Bookmarks(Bookmarks::default()));
    modules.push(ModuleConfig::Commit(Commit::default()));
    modules
}

/// Whether `modules` are the modules that are shown when the configuration
/// names none: a bookmark module and a commit module, each as it is by default.
pub open spec fn are_default(modules: Seq<ModuleConfig>) -> bool {
    &&& modules.len() == 2
    &&& modules[0] matches ModuleConfig::Bookmarks(module) && module.is_default()
    &&& modules[1] matches ModuleConfig::Commit(module) && module.is_default()
}

impl GlobalConfig {
    /// Whether this is what holds for all modules when the configuration
    /// says nothing of it: a space behind each module, no timeout, the
    /// search bounded as by default, and a reset at the end.
    pub open spec fn is_default(&self) -> bool {
        &&& self.module_separator@ == seq![' ']
        &&& self.timeout is None
        &&& self.bookmarks.is_default()
        &&& self.reset_color
    }
}

impl Default for GlobalConfig {
    fn default() -> (global: Self)
        ensures
            global.is_default(),
    {
        GlobalConfig {
            timeout: None,
            module_separator: default_separator(),
            bookmarks: BookmarkConfig::default(),
            reset_color: default_reset_color(),
        }
    }
}

impl Default for Config {
    fn default() -> (config: Self)
        ensures
            config.global.is_default(),
            are_default(config.modules@),
    {
        Config { global: GlobalConfig::default(), modules: default_modules() }
    }
}

/// A step of showing the prompt. Each module is parsed, which may take
/// facts from the engine, and then rendered, before the next module's turn.
#[derive(Clone, Copy, Debug, PartialEq, Eq, Structural)]
pub enum Step {
    /// The module at this place gathers what it shows.
    Parse(usize),
    /// The module at this place is written.
    Render(usize),
    /// The style is reset behind the last module.
    Reset,
    /// Nothing is left to do.
    Done,
}

/// The style that the reset at the end is written in: nothing set.
pub open spec fn reset_style() -> AnsiStyle {
    Style::unset().merged(None).resolved()
}

impl ModuleConfig {
    /// Whether the module has what its rendering takes for granted: a
    /// bookmark module is only rendered once bookmarks were searched for.
    pub open spec fn renderable(&self, data: &JJData) -> bool {
        self is Bookmarks ==> data.bookmarks.bookmarks is Some
    }

    /// The style that is in force behind the module.
    pub open spec fn style_after(
        &self,
        data: &JJData,
        prev_style: Option<AnsiStyle>,
    ) -> Option<AnsiStyle> {
        match *self {
            ModuleConfig::Bookmarks(module) => Some(module.shown_style()),
            ModuleConfig::Commit(module) => if data.commit.desc is Some {
                Some(module.shown_style())
            } else {
                prev_style
            },
        }
    }

    /// What the module writes: the codes that lead from `prev_style` to its
    /// style, and its text.
    pub open spec fn rendered(
        &self,
        data: &JJData,
        module_separator: Seq<char>,
        prev_style: Option<AnsiStyle>,
    ) -> Seq<char> {
        match *self {
            ModuleConfig::Bookmarks(module) => transition(prev_style, module.shown_style())
                + module.listing(data.bookmarks.bookmarks->0.order(), module_separator),
            ModuleConfig::Commit(module) => match data.commit.desc {
                Some(desc) => transition(prev_style, module.shown_style()) + module.text(
                    desc@,
                    data.commit.ahead,
                    module_separator,
                ),
                None => Seq::<char>::empty(),
            },
        }
    }

    /// How parsing the module leaves things.
    pub open spec fn parsed(
        &self,
        before: &JJData,
        known: &Facts,
        after: &JJData,
        left: &Facts,
        need: Need,
    ) -> bool {
        match *self {
            ModuleConfig::Bookmarks(module) => module.parsed(before, known, after, left, need),
            ModuleConfig::Commit(module) => module.parsed(before, known, after, need) && *left
                == *known,
        }
    }

    /// Gathers what the module shows from what is known, and says what is
    /// still lacking. Once nothing is lacking the module can be rendered.
    pub fn parse(&self, data: &mut JJData, facts: &mut Facts) -> (need: Need)
        ensures
            self.parsed(old(data), old(facts), final(data), final(facts), need),
            need == Need::Nothing ==> self.renderable(final(data)),
    {
        match self {
            ModuleConfig::Bookmarks(module) => module.parse(data, facts),
            ModuleConfig::Commit(module) => module.parse(data, facts),
        }
    }

    /// Writes the module to `out`.
    pub fn print(
        &self,
        out: &mut String,
        data: &JJData,
        module_separator: &str,
        prev_style: &mut Option<AnsiStyle>,
    )
        requires
            self.renderable(data),
        ensures
            final(out)@ == old(out)@ + self.rendered(data, module_separator@, *old(prev_style)),
            *final(prev_style) == self.style_after(data, *old(prev_style)),
    {
        match self {
            ModuleConfig::Bookmarks(module) => module.print(out, data, module_separator, prev_style),
            ModuleConfig::Commit(module) => module.print(out, data, module_separator, prev_style),
        }
    }
}

impl Config {
    /// The first step: the first module's parsing, or what follows the
    /// last module where there is none.
    pub open spec fn first(&self) -> Step {
        self.entering(0)
    }

    /// The step with which the module at `index` begins, or what follows
    /// the last module where there is none at `index`.
    pub open spec fn entering(&self, index: int) -> Step {
        if index < self.modules@.len() {
            Step::Parse(index as usize)
        } else if self.global.reset_color {
            Step::Reset
        } else {
            Step::Done
        }
    }

    /// The step that follows `step` once nothing is lacking.
    pub open spec fn following(&self, step: Step) -> Step {
        match step {
            Step::Parse(index) => if index < self.modules@.len() {
                Step::Render(index)
            } else {
                self.entering(index as int)
            },
            Step::Render(index) => self.entering(index + 1),
            Step::Reset => Step::Done,
            Step::Done => Step::Done,
        }
    }

    /// Whether `step` can be taken with `data`: a module is rendered only
    /// with what its rendering takes for granted.
    pub open spec fn ready(&self, step: Step, data: &JJData) -> bool {
        match step {
            Step::Render(index) if index < self.modules@.len() => self.modules@[index as int].renderable(
                data,
            ),
            _ => true,
        }
    }

    /// Whether `step` can be taken with `data`.
    pub fn is_ready(&self, step: Step, data: &JJData) -> (ready: bool)
        ensures
            ready == self.ready(step, data),
    {
        match step {
            Step::Render(index) => {
                if index < self.modules.len() {
                    match &self.modules[index] {
                        ModuleConfig::Bookmarks(_) => data.bookmarks.bookmarks.is_some(),
                        ModuleConfig::Commit(_) => true,
                    }
                } else {
                    true
                }
            },
            _ => true,
        }
    }

    /// The step to begin with.
    pub fn start(&self) -> (step: Step)
        ensures
            step == self.first(),
    {
        self.enter(0)
    }

    fn enter(&self, index: usize) -> (step: Step)
        ensures
            step == self.entering(index as int),
    {
        if index < self.modules.len() {
            Step::Parse(index)
        } else if self.global.reset_color {
            Step::Reset
        } else {
            Step::Done
        }
    }

    /// Takes one step of showing the prompt and says which step is next
    /// and what the engine has to supply before it. A module whose parsing
    /// lacks a fact is parsed again once `facts` holds it; nothing is
    /// written before. A module is written to `out` in its style, with the
    /// codes that lead to it from `prev_style`; behind the last module the
    /// style is reset where the configuration asks for it.
    pub fn print(
        &self,
        step: Step,
        data: &mut JJData,
        facts: &mut Facts,
        out: &mut String,
        prev_style: &mut Option<AnsiStyle>,
    ) -> (next: (Step, Need))
        requires
            self.ready(step, old(data)),
        ensures
            self.ready(next.0, final(data)),
            next.1 != Need::Nothing ==> next.0 == step,
            next.1 == Need::Nothing ==> next.0 == self.following(step),
            match step {
                Step::Parse(index) if index < self.modules@.len() => {
                    &&& final(out)@ == old(out)@
                    &&& *final(prev_style) == *old(prev_style)
                    &&& self.modules@[index as int].parsed(
                        old(data),
                        old(facts),
                        final(data),
                        final(facts),
                        next.1,
                    )
                },
                Step::Render(index) if index < self.modules@.len() => {
                    &&& next.1 == Need::Nothing
                    &&& *final(data) == *old(data)
                    &&& *final(facts) == *old(facts)
                    &&& final(out)@ == old(out)@ + self.modules@[index as int].rendered(
                        old(data),
                        self.global.module_separator@,
                        *old(prev_style),
                    )
                    &&& *final(prev_style) == self.modules@[index as int].style_after(
                        old(data),
                        *old(prev_style),
                    )
                },
                Step::Reset => {
                    &&& next.1 == Need::Nothing
                    &&& *final(data) == *old(data)
                    &&& *final(facts) == *old(facts)
                    &&& final(out)@ == old(out)@ + transition(*old(prev_style), reset_style())
                    &&& *final(prev_style) == Some(reset_style())
                },
                _ => {
                    &&& next.1 == Need::Nothing
                    &&& *final(data) == *old(data)
                    &&& *final(facts) == *old(facts)
                    &&& final(out)@ == old(out)@
                    &&& *final(prev_style) == *old(prev_style)
                },
            },
    {
        match step {
            Step::Parse(index) => {
                if index < self.modules.len() {
                    let need = self.modules[index].parse(data, facts);
                    match need {
                        Need::Nothing => (Step::Render(index), Need::Nothing),
                        _ => (step, need),
                    }
                } else {
                    (self.enter(index), Need::Nothing)
                }
            },
            Step::Render(index) => {
                if index < self.modules.len() {
                    self.modules[index].print(
                        out,
                        data,
                        self.global.module_separator.as_str(),
                        prev_style,
                    );
                    (self.enter(index + 1), Need::Nothing)
                } else {
                    (self.enter(index), Need::Nothing)
                }
            },
            Step::Reset => {
                Style::default().print(out, None, prev_style);
                (Step::Done, Need::Nothing)
            },
            Step::Done => (Step::Done, Need::Nothing),
        }
    }
}

impl Config {
    /// The step that is taken after `count` steps, where nothing is lacking.
    pub open spec fn step_at(&self, count: nat) -> Step
        decreases count,
    {
        if count == 0 {
            self.first()
        } else {
            self.following(self.step_at((count - 1) as nat))
        }
    }

    /// Every module is parsed and then rendered, once, in the order of the
    /// configuration; the reset follows the last module where it is asked
    /// for, and then nothing more.
    pub proof fn lemma_steps_in_order(&self, count: nat)
        ensures
            self.step_at(count) == if count < 2 * self.modules@.len() {
                if count % 2 == 0 {
                    Step::Parse((count / 2) as usize)
                } else {
                    Step::Render((count / 2) as usize)
                }
            } else if count == 2 * self.modules@.len() && self.global.reset_color {
                Step::Reset
            } else {
                Step::Done
            },
        decreases count,
    {
        assert(self.modules@.len() == self.modules.len());
        if count > 0 {
            self.lemma_steps_in_order((count - 1) as nat);
        }
    }
}

/// What is written when the prompt is given up because it took too long:
/// the codes of a style with nothing set, written as the first style, and a space.
pub fn timeout_output() -> (out: String)
    ensures
        out@ == ansi_prefix(reset_style()) + seq![' '],
{
    let mut out = String::new();
    let mut prev_style: Option<AnsiStyle> = None;
    Style::default().print(&mut out, None, &mut prev_style);
    out.push(' ');
    assert(out@ =~= ansi_prefix(reset_style()) + seq![' ']);
    out
}

/// What the watchdog writes before it ends the process, when its time
/// has run out: nothing where the prompt is complete by then, `done`; else
/// what `timeout_output` gives.
pub fn on_timeout(done: bool) -> (last_words: Option<String>)
    ensures
        done ==> last_words is None,
        !done ==> last_words is Some && last_words->0@ == ansi_prefix(reset_style()) + seq![' '],
{
    if done {
        None
    } else {
        Some(timeout_output())
    }
}

} // verus!
