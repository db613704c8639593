use nu_ansi_term::Style as AnsiStyle;
use starship_jj::config::bookmarks::Bookmarks;
use starship_jj::config::bookmarks::IgnoreEmpty;
use starship_jj::config::commit::Commit;
use starship_jj::config::default_modules;
use starship_jj::config::util::Color;
use starship_jj::config::util::Style;
use starship_jj::config::util::TextAttributess;
use starship_jj::config::Config;
use starship_jj::config::GlobalConfig;
use starship_jj::config::ModuleConfig;
use starship_jj::config::Step;
use starship_jj::data::BookmarkList;
use starship_jj::data::Facts;
use starship_jj::data::JJData;
use starship_jj::data::Need;
use starship_jj::resolver::find_parent_bookmarks;
use starship_jj::resolver::RemoteBookmark;
use starship_jj::resolver::Reply;
use starship_jj::resolver::Request;
use starship_jj::resolver::Search;

const MAGENTA: &str = "\u{1b}[0m\u{1b}[35m";
const TO_PLAIN: &str = "\u{1b}[0m\u{1b}[0m\u{1b}[m";
const PLAIN: &str = "\u{1b}[0m\u{1b}[m";

/// A repository as the engine would describe it.
struct Repository {
    working_copy: Vec<u8>,
    on_working_copy: Vec<String>,
    nearest: Option<Vec<u8>>,
    on_nearest: Vec<String>,
    range: Vec<Vec<u8>>,
    description: Option<String>,
    parents: Vec<String>,
}

impl Repository {
    fn with(bookmarks: &[&str], description: &str) -> Repository {
        Repository {
            working_copy: vec![1],
            on_working_copy: bookmarks.iter().map(|name| name.to_string()).collect(),
            nearest: None,
            on_nearest: Vec::new(),
            range: Vec::new(),
            description: Some(description.to_string()),
            parents: Vec::new(),
        }
    }

    fn answer(&self, request: Request) -> Reply {
        match request {
            Request::Resolve(revset) if revset == "@" => {
                Reply::CommitIds(vec![self.working_copy.clone()])
            }
            Request::Resolve(revset) if revset.starts_with("latest(") => {
                Reply::CommitIds(self.nearest.iter().cloned().collect())
            }
            Request::Resolve(_) => Reply::CommitIds(self.range.clone()),
            Request::Bookmarks(id) if id == self.working_copy => {
                Reply::Bookmarks(self.on_working_copy.clone(), Vec::<RemoteBookmark>::new())
            }
            Request::Bookmarks(_) => {
                Reply::Bookmarks(self.on_nearest.clone(), Vec::<RemoteBookmark>::new())
            }
        }
    }

    fn search(&self, config: &Config) -> BookmarkList {
        let mut search = Search::new();
        let mut found = BookmarkList::new();
        let mut reply = None;
        while let Some(request) =
            find_parent_bookmarks(&mut search, reply.as_ref(), &config.global.bookmarks, &mut found)
        {
            reply = Some(self.answer(request));
        }
        found
    }
}

/// Shows the prompt of `repository` and tells what was asked of the engine.
fn show(config: &Config, repository: &Repository) -> (String, Vec<Need>, Option<AnsiStyle>) {
    let mut data = JJData::default();
    let mut facts = Facts::default();
    let mut out = String::new();
    let mut prev_style = None;
    let mut asked = Vec::new();
    let mut step = config.start();
    while step != Step::Done {
        let (next, need) = config.print(step, &mut data, &mut facts, &mut out, &mut prev_style);
        match need {
            Need::Nothing => {}
            Need::Bookmarks => facts.bookmarks = Some(repository.search(config)),
            Need::Description => facts.description = Some(repository.description.clone()),
            Need::Parents => facts.parents = Some(repository.parents.clone()),
        }
        if need != Need::Nothing {
            asked.push(need);
        }
        step = next;
    }
    (out, asked, prev_style)
}

fn one_module(module: ModuleConfig) -> Config {
    Config { global: GlobalConfig::default(), modules: vec![module] }
}

fn listed(module: &Bookmarks, entries: &[(&str, usize)]) -> String {
    let mut list = BookmarkList::new();
    for (name, distance) in entries {
        list.insert(name.to_string(), *distance);
    }
    let mut data = JJData::default();
    data.bookmarks.bookmarks = Some(list);
    let mut out = String::new();
    let mut prev_style = None;
    module.print(&mut out, &data, "|", &mut prev_style);
    out
}

fn described(module: &Commit, desc: Option<&str>, ahead: bool) -> String {
    let mut data = JJData::default();
    data.commit.desc = desc.map(|text| text.to_string());
    data.commit.ahead = ahead;
    let mut out = String::new();
    let mut prev_style = None;
    module.print(&mut out, &data, "|", &mut prev_style);
    out
}

#[test]
fn bookmark_and_description_with_default_config() {
    let config = Config::default();
    let repository = Repository::with(&["main"], "fix bug");
    let (out, asked, last_style) = show(&config, &repository);
    assert_eq!(out, format!("{MAGENTA}main {TO_PLAIN}\"fix bug\" "));
    assert_eq!(asked, vec![Need::Bookmarks, Need::Description]);
    assert_eq!(last_style, Some(AnsiStyle::from(Style::default())));
}

#[test]
fn reset_follows_a_styled_module() {
    let config = one_module(ModuleConfig::Bookmarks(Bookmarks::default()));
    let repository = Repository::with(&["main"], "fix bug");
    let (out, asked, last_style) = show(&config, &repository);
    assert_eq!(out, format!("{MAGENTA}main {TO_PLAIN}"));
    assert_eq!(asked, vec![Need::Bookmarks]);
    assert_eq!(last_style, Some(AnsiStyle::from(Style::default())));
}

#[test]
fn no_reset_where_it_is_switched_off() {
    let mut config = one_module(ModuleConfig::Bookmarks(Bookmarks::default()));
    config.global.reset_color = false;
    let repository = Repository::with(&["main"], "fix bug");
    let (out, _, last_style) = show(&config, &repository);
    assert_eq!(out, format!("{MAGENTA}main "));
    assert_ne!(last_style, Some(AnsiStyle::from(Style::default())));
}

#[test]
fn empty_commit_without_description_shows_placeholder() {
    let config = Config::default();
    let repository = Repository::with(&[], "");
    let (out, asked, _) = show(&config, &repository);
    assert_eq!(out, format!("{MAGENTA}{TO_PLAIN}\"(no description set)\" "));
    assert!(!out.contains('\u{21e3}'));
    assert_eq!(asked, vec![Need::Bookmarks, Need::Description]);
}

#[test]
fn one_of_three_bookmarks_and_an_ellipsis() {
    let mut module = Bookmarks::default();
    module.max_bookmarks = Some(1);
    let config = one_module(ModuleConfig::Bookmarks(module));
    let repository = Repository::with(&["b", "c", "a"], "");
    let (out, _, _) = show(&config, &repository);
    assert_eq!(out, format!("{MAGENTA}a \u{2026} {TO_PLAIN}"));
    assert!(!out.contains('b'));
    assert!(!out.contains('c'));
}

#[test]
fn bookmark_of_an_ancestor_is_shown_behind() {
    let config = one_module(ModuleConfig::Bookmarks(Bookmarks::default()));
    let mut repository = Repository::with(&[], "");
    repository.nearest = Some(vec![9]);
    repository.on_nearest = vec!["main".to_string()];
    repository.range = vec![vec![1], vec![5], vec![9]];
    let (out, _, _) = show(&config, &repository);
    assert_eq!(out, format!("{MAGENTA}main\u{21e1}2 {TO_PLAIN}"));
}

#[test]
fn modules_are_shown_in_declared_order() {
    let config = Config {
        global: GlobalConfig::default(),
        modules: vec![
            ModuleConfig::Commit(Commit::default()),
            ModuleConfig::Bookmarks(Bookmarks::default()),
            ModuleConfig::Commit(Commit::default()),
        ],
    };
    let repository = Repository::with(&["main"], "fix bug");
    let (out, asked, _) = show(&config, &repository);
    assert_eq!(
        out,
        format!("{PLAIN}\"fix bug\" \u{1b}[35mmain {TO_PLAIN}\"fix bug\" ")
    );
    assert_eq!(asked, vec![Need::Description, Need::Bookmarks]);
}

#[test]
fn steps_visit_each_module_once() {
    let config = Config::default();
    let repository = Repository::with(&["main"], "fix bug");
    let mut data = JJData::default();
    let mut facts = Facts::default();
    let mut out = String::new();
    let mut prev_style = None;
    let mut steps = Vec::new();
    let mut step = config.start();
    while step != Step::Done {
        steps.push(step);
        let (next, need) = config.print(step, &mut data, &mut facts, &mut out, &mut prev_style);
        match need {
            Need::Nothing => {}
            Need::Bookmarks => facts.bookmarks = Some(repository.search(&config)),
            Need::Description => facts.description = Some(repository.description.clone()),
            Need::Parents => facts.parents = Some(repository.parents.clone()),
        }
        step = next;
    }
    assert_eq!(
        steps,
        vec![
            Step::Parse(0),
            Step::Parse(0),
            Step::Render(0),
            Step::Parse(1),
            Step::Parse(1),
            Step::Render(1),
            Step::Reset,
        ]
    );
    let (after, need) = config.print(Step::Done, &mut data, &mut facts, &mut out, &mut prev_style);
    assert_eq!((after, need), (Step::Done, Need::Nothing));
}

#[test]
fn config_without_modules_only_resets() {
    let config = Config { global: GlobalConfig::default(), modules: Vec::new() };
    assert_eq!(config.start(), Step::Reset);
    let (out, asked, _) = show(&config, &Repository::with(&[], ""));
    assert_eq!(out, PLAIN);
    assert!(asked.is_empty());
    let mut silent = Config { global: GlobalConfig::default(), modules: Vec::new() };
    silent.global.reset_color = false;
    assert_eq!(silent.start(), Step::Done);
}

#[test]
fn step_past_the_last_module_goes_on() {
    let config = Config::default();
    let mut data = JJData::default();
    let mut facts = Facts::default();
    let mut out = String::new();
    let mut prev_style = None;
    let next = config.print(Step::Parse(2), &mut data, &mut facts, &mut out, &mut prev_style);
    assert_eq!(next, (Step::Reset, Need::Nothing));
    let next = config.print(Step::Render(5), &mut data, &mut facts, &mut out, &mut prev_style);
    assert_eq!(next, (Step::Reset, Need::Nothing));
    assert_eq!(out, "");
}

#[test]
fn default_config_has_bookmarks_then_commit() {
    let config = Config::default();
    assert_eq!(config.global.module_separator, " ");
    assert_eq!(config.global.timeout, None);
    assert!(config.global.reset_color);
    assert_eq!(config.global.bookmarks.search_depth, 100);
    assert_eq!(config.modules.len(), 2);
    assert!(matches!(config.modules[0], ModuleConfig::Bookmarks(_)));
    assert!(matches!(config.modules[1], ModuleConfig::Commit(_)));
    assert_eq!(default_modules().len(), 2);
}

#[test]
fn default_bookmarks_module() {
    let module = Bookmarks::default();
    assert_eq!(module.separator, " ");
    assert_eq!(module.style.color, Some(Color::Magenta));
    assert_eq!(module.style.bg_color, None);
    assert_eq!(module.style.attributes, TextAttributess::default());
    assert_eq!(module.behind_symbol, Some('\u{21e1}'));
    assert_eq!(module.max_bookmarks, Some(1));
    assert_eq!(module.max_length, None);
    assert!(!module.surround_with_quotes);
    assert_eq!(module.ignore_empty_commits, IgnoreEmpty::Never);
}

#[test]
fn default_commit_module() {
    let module = Commit::default();
    assert_eq!(module.previous_message_symbol, '\u{21e3}');
    assert_eq!(module.max_length, Some(24));
    assert!(!module.show_previous_if_empty);
    assert_eq!(module.empty_text, "(no description set)");
    assert_eq!(module.style, Style::default());
    assert!(module.surround_with_quotes);
}

#[test]
fn bookmarks_are_separated_and_closed() {
    let mut module = Bookmarks::default();
    module.max_bookmarks = None;
    module.separator = ", ".to_string();
    assert_eq!(
        listed(&module, &[("b", 0), ("a", 0), ("old", 12)]),
        format!("{MAGENTA}a, b, old\u{21e1}12|")
    );
}

#[test]
fn no_bookmarks_write_only_the_style() {
    let module = Bookmarks::default();
    assert_eq!(listed(&module, &[]), MAGENTA);
    let mut none_shown = Bookmarks::default();
    none_shown.max_bookmarks = Some(0);
    assert_eq!(listed(&none_shown, &[]), MAGENTA);
}

#[test]
fn limit_of_bookmarks_is_kept() {
    let mut module = Bookmarks::default();
    module.max_bookmarks = Some(2);
    assert_eq!(listed(&module, &[("a", 1), ("b", 1)]), format!("{MAGENTA}a\u{21e1}1 b\u{21e1}1|"));
    assert_eq!(
        listed(&module, &[("a", 1), ("b", 1), ("c", 1)]),
        format!("{MAGENTA}a\u{21e1}1 b\u{21e1}1 \u{2026}|")
    );
    module.max_bookmarks = Some(0);
    assert_eq!(listed(&module, &[("a", 1)]), format!("{MAGENTA} \u{2026}|"));
}

#[test]
fn distance_without_symbol_is_a_bare_number() {
    let mut module = Bookmarks::default();
    module.behind_symbol = None;
    assert_eq!(listed(&module, &[("main", 3)]), format!("{MAGENTA}main3|"));
    assert_eq!(listed(&module, &[("main", 0)]), format!("{MAGENTA}main|"));
}

#[test]
fn bookmark_names_are_cut_and_quoted() {
    let mut module = Bookmarks::default();
    module.max_length = Some(4);
    module.surround_with_quotes = true;
    module.style = Style { color: Some(Color::Red), ..Style::default() };
    assert_eq!(
        listed(&module, &[("feature/login", 1)]),
        "\u{1b}[0m\u{1b}[31m\"fea\u{2026}\"\u{21e1}1|"
    );
}

#[test]
fn description_shows_its_first_line() {
    let module = Commit::default();
    assert_eq!(
        described(&module, Some("fix bug\n\ndetails"), false),
        format!("{PLAIN}\"fix bug\"|")
    );
    assert_eq!(described(&module, Some("\nrest"), false), format!("{PLAIN}\"\"|"));
}

#[test]
fn long_description_is_cut() {
    let module = Commit::default();
    assert_eq!(
        described(&module, Some("a description that is far too long"), false),
        format!("{PLAIN}\"a description that is f\u{2026}\"|")
    );
}

#[test]
fn empty_description_shows_the_placeholder() {
    let mut module = Commit::default();
    assert_eq!(described(&module, Some(""), false), format!("{PLAIN}\"(no description set)\"|"));
    module.empty_text = "none".to_string();
    module.surround_with_quotes = false;
    assert_eq!(described(&module, Some(""), false), format!("{PLAIN}none|"));
}

#[test]
fn parent_description_is_marked() {
    let module = Commit::default();
    assert_eq!(
        described(&module, Some("parent work"), true),
        format!("{PLAIN}\"parent work\"\u{21e3}|")
    );
}

#[test]
fn no_description_writes_nothing() {
    let module = Commit::default();
    assert_eq!(described(&module, None, false), "");
    assert_eq!(described(&module, None, true), "");
}

#[test]
fn commit_parse_asks_for_the_description_first() {
    let module = Commit::default();
    let mut data = JJData::default();
    let mut facts = Facts::default();
    assert_eq!(module.parse(&mut data, &facts), Need::Description);
    assert_eq!(data.commit.desc, None);
    facts.description = Some(Some("fix bug".to_string()));
    assert_eq!(module.parse(&mut data, &facts), Need::Nothing);
    assert_eq!(data.commit.desc, Some("fix bug".to_string()));
    assert!(!data.commit.ahead);
    facts.description = Some(Some("other".to_string()));
    assert_eq!(module.parse(&mut data, &facts), Need::Nothing);
    assert_eq!(data.commit.desc, Some("fix bug".to_string()));
}

#[test]
fn commit_parse_without_commit_settles_nothing() {
    let module = Commit::default();
    let mut data = JJData::default();
    let mut facts = Facts::default();
    facts.description = Some(None);
    assert_eq!(module.parse(&mut data, &facts), Need::Nothing);
    assert_eq!(data.commit.desc, None);
}

#[test]
fn commit_parse_keeps_empty_description_by_default() {
    let module = Commit::default();
    let mut data = JJData::default();
    let mut facts = Facts::default();
    facts.description = Some(Some(String::new()));
    assert_eq!(module.parse(&mut data, &facts), Need::Nothing);
    assert_eq!(data.commit.desc, Some(String::new()));
    assert!(!data.commit.ahead);
}

#[test]
fn commit_parse_takes_the_only_parent() {
    let mut module = Commit::default();
    module.show_previous_if_empty = true;
    let mut data = JJData::default();
    let mut facts = Facts::default();
    facts.description = Some(Some(String::new()));
    assert_eq!(module.parse(&mut data, &facts), Need::Parents);
    assert_eq!(data.commit.desc, None);
    facts.parents = Some(vec!["parent work".to_string()]);
    assert_eq!(module.parse(&mut data, &facts), Need::Nothing);
    assert_eq!(data.commit.desc, Some("parent work".to_string()));
    assert!(data.commit.ahead);
}

#[test]
fn commit_parse_with_several_parents_settles_nothing() {
    let mut module = Commit::default();
    module.show_previous_if_empty = true;
    let mut data = JJData::default();
    let mut facts = Facts::default();
    facts.description = Some(Some(String::new()));
    facts.parents = Some(vec!["one".to_string(), "two".to_string()]);
    assert_eq!(module.parse(&mut data, &facts), Need::Nothing);
    assert_eq!(data.commit.desc, None);
    facts.parents = Some(Vec::new());
    assert_eq!(module.parse(&mut data, &facts), Need::Nothing);
    assert_eq!(data.commit.desc, None);
    assert!(!data.commit.ahead);
}

#[test]
fn commit_parse_prefers_own_description() {
    let mut module = Commit::default();
    module.show_previous_if_empty = true;
    let mut data = JJData::default();
    let mut facts = Facts::default();
    facts.description = Some(Some("mine".to_string()));
    assert_eq!(module.parse(&mut data, &facts), Need::Nothing);
    assert_eq!(data.commit.desc, Some("mine".to_string()));
    assert!(!data.commit.ahead);
}

#[test]
fn parent_description_through_the_pipeline() {
    let mut module = Commit::default();
    module.show_previous_if_empty = true;
    let config = one_module(ModuleConfig::Commit(module));
    let mut repository = Repository::with(&[], "");
    repository.parents = vec!["parent work".to_string()];
    let (out, asked, _) = show(&config, &repository);
    assert_eq!(out, format!("{PLAIN}\"parent work\"\u{21e3} "));
    assert_eq!(asked, vec![Need::Description, Need::Parents]);
}

#[test]
fn bookmarks_parse_takes_the_search_result_once() {
    let module = Bookmarks::default();
    let mut data = JJData::default();
    let mut facts = Facts::default();
    assert_eq!(module.parse(&mut data, &mut facts), Need::Bookmarks);
    assert!(data.bookmarks.bookmarks.is_none());
    let mut found = BookmarkList::new();
    found.insert("main".to_string(), 0);
    facts.bookmarks = Some(found);
    assert_eq!(module.parse(&mut data, &mut facts), Need::Nothing);
    assert!(facts.bookmarks.is_none());
    assert_eq!(data.bookmarks.bookmarks.as_ref().map(|list| list.len()), Some(1));
    let mut other = BookmarkList::new();
    other.insert("a".to_string(), 1);
    other.insert("b".to_string(), 1);
    facts.bookmarks = Some(other);
    assert_eq!(module.parse(&mut data, &mut facts), Need::Nothing);
    assert_eq!(data.bookmarks.bookmarks.as_ref().map(|list| list.len()), Some(1));
    assert!(facts.bookmarks.is_some());
}

#[test]
fn bookmarks_are_not_rendered_before_they_are_parsed() {
    let config = Config::default();
    let mut data = JJData::default();
    assert!(config.is_ready(Step::Parse(0), &data));
    assert!(!config.is_ready(Step::Render(0), &data));
    assert!(config.is_ready(Step::Render(1), &data));
    assert!(config.is_ready(Step::Render(7), &data));
    assert!(config.is_ready(Step::Reset, &data));
    assert!(config.is_ready(Step::Done, &data));
    data.bookmarks.bookmarks = Some(BookmarkList::new());
    assert!(config.is_ready(Step::Render(0), &data));
}

#[test]
fn engine_failure_keeps_what_was_written() {
    let config = Config::default();
    let repository = Repository::with(&["main"], "fix bug");
    let mut data = JJData::default();
    let mut facts = Facts::default();
    let mut out = String::new();
    let mut prev_style = None;
    let mut step = config.start();
    let mut failed = false;
    while step != Step::Done && !failed {
        let (next, need) = config.print(step, &mut data, &mut facts, &mut out, &mut prev_style);
        match need {
            Need::Nothing => {}
            Need::Bookmarks => facts.bookmarks = Some(repository.search(&config)),
            Need::Description | Need::Parents => failed = true,
        }
        step = next;
    }
    assert!(failed);
    assert_eq!(step, Step::Parse(1));
    assert_eq!(out, format!("{MAGENTA}main "));
    assert_eq!(data.commit.desc, None);
}
