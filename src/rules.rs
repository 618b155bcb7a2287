//! Platform rules: which libraries of a descriptor apply to this platform.
use vstd::prelude::*;

use crate::models::{platform_name, get_current_os, Library, Platform, Rule};
use crate::text::text_eq;

verus! {

/// A rule applies when it names no platform, or names `os`.
pub open spec fn rule_applies(rule: Rule, os: Seq<char>) -> bool {
    match rule.os {
        None => true,
        Some(o) => match o.name {
            None => true,
            Some(n) => n@ == os,
        },
    }
}

/// A rule whose action is `"allow"`.
pub open spec fn rule_allows(rule: Rule) -> bool {
    rule.action@ == "allow"@
}

/// The verdict after reading `rules` from left to right, starting from
/// "denied": each applicable rule replaces the verdict with its own action.
pub open spec fn fold_rules(rules: Seq<Rule>, os: Seq<char>) -> bool
    decreases rules.len(),
{
    if rules.len() == 0 {
        false
    } else if rule_applies(rules.last(), os) {
        rule_allows(rules.last())
    } else {
        fold_rules(rules.drop_last(), os)
    }
}

/// Whether an entry with these rules is included on `os`: always when it has
/// no rules, else the left-to-right verdict.
pub open spec fn should_include(rules: Seq<Rule>, os: Seq<char>) -> bool {
    rules.len() == 0 || fold_rules(rules, os)
}

/// Whether `rule` applies on `os`.
pub fn rule_applies_exec(rule: &Rule, os: &str) -> (r: bool)
    ensures
        r == rule_applies(*rule, os@),
{
    match &rule.os {
        None => true,
        Some(o) => match &o.name {
            None => true,
            Some(n) => text_eq(n.as_str(), os),
        },
    }
}

/// Whether `rules` include their entry on `platform`.
pub fn evaluate_rules(rules: &Vec<Rule>, platform: Platform) -> (r: bool)
    ensures
        r == should_include(rules@, platform_name(platform)),
{
    if rules.len() == 0 {
        return true;
    }
    let os = get_current_os(platform);
    let mut allow = false;
    let mut i: usize = 0;
    while i < rules.len()
        invariant
            0 <= i <= rules@.len(),
            os@ == platform_name(platform),
            allow == fold_rules(rules@.subrange(0, i as int), os@),
        decreases rules@.len() - i,
    {
        let rule = &rules[i];
        assert(rules@.subrange(0, i + 1).drop_last() =~= rules@.subrange(0, i as int));
        if rule_applies_exec(rule, os) {
            allow = text_eq(rule.action.as_str(), "allow");
        }
        i = i + 1;
    }
    assert(rules@.subrange(0, i as int) =~= rules@);
    allow
}

/// Whether `library` is used on `platform`.
pub fn should_use_library(library: &Library, platform: Platform) -> (r: bool)
    ensures
        r == should_include(library.rules@, platform_name(platform)),
{
    evaluate_rules(&library.rules, platform)
}

/// An entry without rules is included on every platform.
pub proof fn lemma_no_rules_always_included(rules: Seq<Rule>, os: Seq<char>)
    requires
        rules.len() == 0,
    ensures
        should_include(rules, os),
{
}

/// `i` is the last position of `rules` whose rule applies on `os`.
pub open spec fn last_applicable(rules: Seq<Rule>, os: Seq<char>, i: int) -> bool {
    &&& 0 <= i < rules.len()
    &&& rule_applies(rules[i], os)
    &&& forall|j: int| i < j < rules.len() ==> !rule_applies(#[trigger] rules[j], os)
}

/// For a non-empty rule list the last applicable rule decides: the entry is
/// included exactly when such a rule exists and allows; earlier applicable
/// rules, whatever they say, are overridden.
pub proof fn lemma_last_applicable_rule_wins(rules: Seq<Rule>, os: Seq<char>)
    requires
        rules.len() > 0,
    ensures
        should_include(rules, os) <==> exists|i: int|
            last_applicable(rules, os, i) && rule_allows(#[trigger] rules[i]),
    decreases rules.len(),
{
    let n = rules.len() as int;
    if rule_applies(rules.last(), os) {
        if rule_allows(rules.last()) {
            assert(last_applicable(rules, os, n - 1));
        } else {
            assert forall|i: int| last_applicable(rules, os, i) implies !rule_allows(rules[i]) by {
                assert(i == n - 1);
            }
        }
    } else {
        let prefix = rules.drop_last();
        assert(fold_rules(rules, os) == fold_rules(prefix, os));
        if prefix.len() == 0 {
            assert(!fold_rules(prefix, os));
            assert forall|i: int| !last_applicable(rules, os, i) by {}
        } else {
            lemma_last_applicable_rule_wins(prefix, os);
            assert forall|i: int| last_applicable(rules, os, i) <==> last_applicable(prefix, os, i) by {
                if last_applicable(prefix, os, i) {
                    assert forall|j: int| i < j < rules.len() implies !rule_applies(
                        #[trigger] rules[j],
                        os,
                    ) by {
                        if j < n - 1 {
                            assert(rules[j] == prefix[j]);
                        }
                    }
                }
                if last_applicable(rules, os, i) {
                    assert(i < n - 1);
                    assert forall|j: int| i < j < prefix.len() implies !rule_applies(
                        #[trigger] prefix[j],
                        os,
                    ) by {
                        assert(rules[j] == prefix[j]);
                    }
                }
            }
            if should_include(rules, os) {
                let i = choose|i: int| last_applicable(prefix, os, i) && rule_allows(prefix[i]);
                assert(rules[i] == prefix[i]);
            }
            if exists|i: int| last_applicable(rules, os, i) && rule_allows(#[trigger] rules[i]) {
                let i = choose|i: int| last_applicable(rules, os, i) && rule_allows(rules[i]);
                assert(rules[i] == prefix[i]);
                assert(last_applicable(prefix, os, i));
            }
        }
    }
}

} // verus!
