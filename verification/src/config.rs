//! The coloring rules and their resolution: an ordered rule list is
//! walked once per window; Global rules set a running default and the
//! first Title/Class rule whose pattern occurs (case-insensitively) in
//! the window's title or class decides the colors outright.

use vstd::prelude::*;
use crate::{COLOR_INVALID, DWMWA_COLOR_DEFAULT};
use crate::text::{lower_of, matches_ci, seq_contains};
use crate::util::{hex_to_colorref, spec_hex_colorref};

verus! {

/// What part of a window a rule inspects.
#[derive(Clone, Copy, PartialEq, Eq, Structural, Debug)]
pub enum RuleMatch {
    Global,
    Title,
    Class,
}

/// One coloring rule. `contains` is the pattern a Title/Class rule looks
/// for; Global rules ignore it. Colors are strings as they appear in the
/// configuration (`#rrggbb` or a dynamic keyword).
#[derive(Debug)]
pub struct WindowRule {
    pub rule_match: RuleMatch,
    pub contains: Option<String>,
    pub active_border_color: String,
    pub inactive_border_color: String,
}

impl Clone for WindowRule {
    fn clone(&self) -> (r: Self)
        ensures
            r == *self,
    {
        WindowRule {
            rule_match: self.rule_match,
            contains: match &self.contains {
                Some(p) => Some(p.clone()),
                None => None,
            },
            active_border_color: self.active_border_color.clone(),
            inactive_border_color: self.inactive_border_color.clone(),
        }
    }
}

/// The configuration the core consumes: the ordered rule list, plus
/// whether the host should hide its tray icon.
#[derive(Debug)]
pub struct Config {
    pub hide_tray_icon: Option<bool>,
    pub window_rules: Vec<WindowRule>,
}

impl Config {
    /// A configuration with no rules: every window gets the
    /// invalid-color marker until rules arrive.
    pub fn new() -> (c: Config)
        ensures
            c.hide_tray_icon is None,
            c.window_rules@.len() == 0,
    {
        Config { hide_tray_icon: None, window_rules: Vec::new() }
    }

    /// A snapshot of the current configuration.
    pub fn get(&self) -> (c: Config)
        ensures
            c.hide_tray_icon == self.hide_tray_icon,
            c.window_rules@ == self.window_rules@,
    {
        let mut rules: Vec<WindowRule> = Vec::new();
        let n = self.window_rules.len();
        let mut i: usize = 0;
        proof {
            assert(rules@ =~= self.window_rules@.subrange(0, 0));
        }
        while i < n
            invariant
                n == self.window_rules@.len(),
                i <= n,
                rules@ == self.window_rules@.subrange(0, i as int),
            decreases n - i,
        {
            rules.push(self.window_rules[i].clone());
            proof {
                assert(rules@ =~= self.window_rules@.subrange(0, i + 1));
            }
            i += 1;
        }
        proof {
            assert(rules@ =~= self.window_rules@);
        }
        Config { hide_tray_icon: self.hide_tray_icon, window_rules: rules }
    }

    /// Install a freshly loaded configuration; the collaborator that
    /// parses the configuration file hands it over whole.
    pub fn reload(&mut self, new: Config)
        ensures
            *final(self) == new,
    {
        *self = new;
    }
}

/// The pair (active, inactive) a rule resolves to.
pub open spec fn spec_rule_colors(r: WindowRule, accent: Option<u32>, rainbow: u32) -> (u32, u32) {
    (
        spec_hex_colorref(r.active_border_color@, accent, rainbow),
        spec_hex_colorref(r.inactive_border_color@, accent, rainbow),
    )
}

/// Whether a rule matches a window: Global rules always do; Title/Class
/// rules match when their pattern occurs case-insensitively in the title
/// or class, and never when they carry no pattern.
pub open spec fn spec_rule_matches(r: WindowRule, title: Seq<char>, class: Seq<char>) -> bool {
    match r.rule_match {
        RuleMatch::Global => true,
        RuleMatch::Title => match r.contains {
            Some(p) => seq_contains(lower_of(title), lower_of(p@)),
            None => false,
        },
        RuleMatch::Class => match r.contains {
            Some(p) => seq_contains(lower_of(class), lower_of(p@)),
            None => false,
        },
    }
}

/// One walk over the rule list: a Global rule replaces the running
/// default and the walk goes on; the first matching Title/Class rule
/// decides outright; a non-matching one is skipped.
pub open spec fn spec_resolve_colors(
    rules: Seq<WindowRule>,
    title: Seq<char>,
    class: Seq<char>,
    accent: Option<u32>,
    rainbow: u32,
    acc: (u32, u32),
) -> (u32, u32)
    decreases rules.len(),
{
    if rules.len() == 0 {
        acc
    } else {
        let r = rules[0];
        if r.rule_match == RuleMatch::Global {
            spec_resolve_colors(
                rules.drop_first(),
                title,
                class,
                accent,
                rainbow,
                spec_rule_colors(r, accent, rainbow),
            )
        } else if spec_rule_matches(r, title, class) {
            spec_rule_colors(r, accent, rainbow)
        } else {
            spec_resolve_colors(rules.drop_first(), title, class, accent, rainbow, acc)
        }
    }
}

/// The colors the rule list assigns to a window, starting from the
/// invalid-color fallback.
pub open spec fn spec_colors_for_window(
    rules: Seq<WindowRule>,
    title: Seq<char>,
    class: Seq<char>,
    accent: Option<u32>,
    rainbow: u32,
) -> (u32, u32) {
    spec_resolve_colors(rules, title, class, accent, rainbow, (COLOR_INVALID, COLOR_INVALID))
}

/// Resolve the (active, inactive) colors for one window. With `reset`
/// the compositor defaults are returned instead, whatever the rules say.
pub fn get_colors_for_window(
    title: &str,
    class: &str,
    reset: bool,
    config: &Config,
    accent: Option<u32>,
    rainbow: u32,
) -> (colors: (u32, u32))
    ensures
        reset ==> colors == (DWMWA_COLOR_DEFAULT, DWMWA_COLOR_DEFAULT),
        !reset ==> colors == spec_colors_for_window(
            config.window_rules@,
            title@,
            class@,
            accent,
            rainbow,
        ),
{
    if reset {
        return (DWMWA_COLOR_DEFAULT, DWMWA_COLOR_DEFAULT);
    }
    let ghost rules = config.window_rules@;
    let mut active: u32 = COLOR_INVALID;
    let mut inactive: u32 = COLOR_INVALID;
    let n = config.window_rules.len();
    let mut i: usize = 0;
    proof {
        assert(rules.skip(0) =~= rules);
    }
    while i < n
        invariant
            !reset,
            n == rules.len(),
            rules == config.window_rules@,
            i <= n,
            spec_colors_for_window(rules, title@, class@, accent, rainbow)
                == spec_resolve_colors(
                rules.skip(i as int),
                title@,
                class@,
                accent,
                rainbow,
                (active, inactive),
            ),
        decreases n - i,
    {
        proof {
            assert(rules.skip(i as int)[0] == rules[i as int]);
            assert(rules.skip(i as int).drop_first() =~= rules.skip(i as int + 1));
        }
        let rule = &config.window_rules[i];
        match rule.rule_match {
            RuleMatch::Global => {
                active = hex_to_colorref(rule.active_border_color.as_str(), accent, rainbow);
                inactive = hex_to_colorref(rule.inactive_border_color.as_str(), accent, rainbow);
            },
            RuleMatch::Title => {
                match &rule.contains {
                    Some(p) => {
                        if matches_ci(title, p.as_str()) {
                            let a = hex_to_colorref(rule.active_border_color.as_str(), accent, rainbow);
                            let b = hex_to_colorref(rule.inactive_border_color.as_str(), accent, rainbow);
                            return (a, b);
                        }
                    },
                    None => {},
                }
            },
            RuleMatch::Class => {
                match &rule.contains {
                    Some(p) => {
                        if matches_ci(class, p.as_str()) {
                            let a = hex_to_colorref(rule.active_border_color.as_str(), accent, rainbow);
                            let b = hex_to_colorref(rule.inactive_border_color.as_str(), accent, rainbow);
                            return (a, b);
                        }
                    },
                    None => {},
                }
            },
        }
        i += 1;
    }
    proof {
        assert(rules.skip(n as int).len() == 0);
    }
    (active, inactive)
}

/// A Global rule matches every window, with or without a pattern.
pub proof fn lemma_global_rule_always_matches(r: WindowRule, title: Seq<char>, class: Seq<char>)
    requires
        r.rule_match == RuleMatch::Global,
    ensures
        spec_rule_matches(r, title, class),
{
}

/// A Title or Class rule without a pattern never matches any window.
pub proof fn lemma_patternless_rule_never_matches(r: WindowRule, title: Seq<char>, class: Seq<char>)
    requires
        r.rule_match != RuleMatch::Global,
        r.contains is None,
    ensures
        !spec_rule_matches(r, title, class),
{
}

/// A non-matching Title/Class rule at the head of the list changes
/// nothing: resolution proceeds over the rest with the same default.
pub proof fn lemma_skipped_rule(
    r: WindowRule,
    rules: Seq<WindowRule>,
    title: Seq<char>,
    class: Seq<char>,
    accent: Option<u32>,
    rainbow: u32,
    acc: (u32, u32),
)
    requires
        r.rule_match != RuleMatch::Global,
        !spec_rule_matches(r, title, class),
    ensures
        spec_resolve_colors(seq![r] + rules, title, class, accent, rainbow, acc)
            == spec_resolve_colors(rules, title, class, accent, rainbow, acc),
{
    let whole = seq![r] + rules;
    assert(whole[0] == r);
    assert(whole.drop_first() =~= rules);
}

/// The first Title/Class rule whose pattern matches decides the colors,
/// whatever Global defaults stand before it and whatever rules follow.
pub proof fn lemma_first_pattern_match_wins(
    rules: Seq<WindowRule>,
    k: int,
    title: Seq<char>,
    class: Seq<char>,
    accent: Option<u32>,
    rainbow: u32,
    acc: (u32, u32),
)
    requires
        0 <= k < rules.len(),
        rules[k].rule_match != RuleMatch::Global,
        spec_rule_matches(rules[k], title, class),
        forall|j: int|
            0 <= j < k ==> rules[j].rule_match == RuleMatch::Global || !#[trigger] spec_rule_matches(
                rules[j],
                title,
                class,
            ),
    ensures
        spec_resolve_colors(rules, title, class, accent, rainbow, acc)
            == spec_rule_colors(rules[k], accent, rainbow),
    decreases k,
{
    if k == 0 {
    } else {
        let rest = rules.drop_first();
        assert(forall|j: int|
            0 <= j < k - 1 ==> rest[j].rule_match == RuleMatch::Global
                || !#[trigger] spec_rule_matches(rest[j], title, class)) by {
            assert(forall|j: int| 0 <= j < k - 1 ==> rest[j] == rules[j + 1]);
        }
        if rules[0].rule_match == RuleMatch::Global {
            lemma_first_pattern_match_wins(
                rest,
                k - 1,
                title,
                class,
                accent,
                rainbow,
                spec_rule_colors(rules[0], accent, rainbow),
            );
        } else {
            assert(!spec_rule_matches(rules[0], title, class));
            lemma_first_pattern_match_wins(rest, k - 1, title, class, accent, rainbow, acc);
        }
    }
}

/// The Global default that survives one walk: the last Global rule seen,
/// if any.
pub open spec fn spec_last_global(rules: Seq<WindowRule>, cur: Option<WindowRule>) -> Option<
    WindowRule,
>
    decreases rules.len(),
{
    if rules.len() == 0 {
        cur
    } else if rules[0].rule_match == RuleMatch::Global {
        spec_last_global(rules.drop_first(), Some(rules[0]))
    } else {
        spec_last_global(rules.drop_first(), cur)
    }
}

/// When no Title/Class rule matches, the last Global rule provides the
/// colors; with no Global rule at all, the fallback is kept.
pub proof fn lemma_global_default(
    rules: Seq<WindowRule>,
    title: Seq<char>,
    class: Seq<char>,
    accent: Option<u32>,
    rainbow: u32,
    acc: (u32, u32),
)
    requires
        forall|j: int|
            0 <= j < rules.len() ==> rules[j].rule_match == RuleMatch::Global
                || !#[trigger] spec_rule_matches(rules[j], title, class),
    ensures
        spec_resolve_colors(rules, title, class, accent, rainbow, acc) == match spec_last_global(
            rules,
            None,
        ) {
            Some(g) => spec_rule_colors(g, accent, rainbow),
            None => acc,
        },
    decreases rules.len(),
{
    lemma_global_default_walk(rules, title, class, accent, rainbow, acc, None);
}

proof fn lemma_global_default_walk(
    rules: Seq<WindowRule>,
    title: Seq<char>,
    class: Seq<char>,
    accent: Option<u32>,
    rainbow: u32,
    acc: (u32, u32),
    cur: Option<WindowRule>,
)
    requires
        forall|j: int|
            0 <= j < rules.len() ==> rules[j].rule_match == RuleMatch::Global
                || !#[trigger] spec_rule_matches(rules[j], title, class),
        acc == match cur {
            Some(g) => spec_rule_colors(g, accent, rainbow),
            None => acc,
        },
    ensures
        spec_resolve_colors(rules, title, class, accent, rainbow, acc) == match spec_last_global(
            rules,
            cur,
        ) {
            Some(g) => spec_rule_colors(g, accent, rainbow),
            None => acc,
        },
    decreases rules.len(),
{
    if rules.len() == 0 {
    } else {
        let rest = rules.drop_first();
        assert(forall|j: int| 0 <= j < rest.len() ==> rest[j] == rules[j + 1]);
        if rules[0].rule_match == RuleMatch::Global {
            lemma_last_global_keeps_some(rest, rules[0]);
            lemma_global_default_walk(
                rest,
                title,
                class,
                accent,
                rainbow,
                spec_rule_colors(rules[0], accent, rainbow),
                Some(rules[0]),
            );
        } else {
            lemma_global_default_walk(rest, title, class, accent, rainbow, acc, cur);
        }
    }
}

/// Once a Global default is in hand, the walk always ends with one.
proof fn lemma_last_global_keeps_some(rules: Seq<WindowRule>, g: WindowRule)
    ensures
        spec_last_global(rules, Some(g)) is Some,
    decreases rules.len(),
{
    if rules.len() == 0 {
    } else {
        if rules[0].rule_match == RuleMatch::Global {
            lemma_last_global_keeps_some(rules.drop_first(), rules[0]);
        } else {
            lemma_last_global_keeps_some(rules.drop_first(), g);
        }
    }
}

} // verus!
