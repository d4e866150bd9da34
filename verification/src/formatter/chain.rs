//! Rules applied one after the other.

use vstd::prelude::*;

use crate::address::{host_written, law_plain_domain_is_written, pairs_of, UrlView};
use crate::entity::{entity_views, EntityView, MessageEntity};
use crate::formatter::defaults::{puts_plain_domain, FormattingRule};
use crate::formatter::laws::{
    has_tidy_urls, is_settled, keeps_reread, keeps_what_it_makes, law_entities_keep_their_kinds,
    law_settled_message_is_skipped, law_skipped_changes_nothing, law_tidy_urls_stay_tidy,
    law_walk_settles, lemma_reread_url, Walk,
};
use crate::formatter::rule::{
    has_excluded, kept_pairs, Rule, UrlHostReplaceRule, UrlQueryExcludeRule,
};
use crate::formatter::rule_laws::{
    law_excluded_parameters_are_gone, law_host_alone_is_replaced, puts_host, writes_readable_urls,
};
use crate::formatter::walk::{
    decision, rereads, rewritten, url_of, Draft, Effect, Rewrite, UrlRewriter,
};
use crate::pattern::regex_matches;

verus! {

/// The message after one rule.
pub open spec fn after_rule(
    rule: FormattingRule,
    text: Seq<u16>,
    entities: Seq<EntityView>,
) -> Option<Draft> {
    rewritten(|url: UrlView| rule.rewrite(url), text, entities)
}

/// The message after the first `count` rules, each applied to what the one before it left. It is
/// mutated where one of them mutated it.
pub open spec fn after_rules(
    rules: Seq<FormattingRule>,
    text: Seq<u16>,
    entities: Seq<EntityView>,
    count: nat,
) -> Option<Draft>
    decreases count,
{
    if count == 0 {
        Some(Draft { text, entities, effect: Effect::Skipped })
    } else {
        match after_rules(rules, text, entities, (count - 1) as nat) {
            None => None,
            Some(earlier) => match after_rule(rules[count - 1], earlier.text, earlier.entities) {
                None => None,
                Some(draft) => Some(
                    Draft {
                        effect: if draft.effect == Effect::Mutated {
                            Effect::Mutated
                        } else {
                            earlier.effect
                        },
                        ..draft
                    },
                ),
            },
        }
    }
}

proof fn lemma_after_rules_prefix(
    rules: Seq<FormattingRule>,
    text: Seq<u16>,
    entities: Seq<EntityView>,
    part: nat,
    count: nat,
)
    requires
        part <= count,
        after_rules(rules, text, entities, count) is Some,
    ensures
        after_rules(rules, text, entities, part) is Some,
        after_rules(rules, text, entities, part)->0.effect == Effect::Mutated ==> after_rules(
            rules,
            text,
            entities,
            count,
        )->0.effect == Effect::Mutated,
    decreases count,
{
    if part < count {
        lemma_after_rules_prefix(rules, text, entities, part, (count - 1) as nat);
    }
}

/// The walk of rule `k` over what the rules before it left.
pub open spec fn walk_of(
    rules: Seq<FormattingRule>,
    text: Seq<u16>,
    entities: Seq<EntityView>,
    k: int,
) -> Walk {
    let rule = rules[k];
    let draft = after_rules(rules, text, entities, k as nat)->0;
    Walk {
        rewrite: |url: UrlView| rule.rewrite(url),
        text: draft.text,
        entities: draft.entities,
    }
}

/// Whether a walk has what every walk has that was carried out: the text stays within what the
/// machine can index, and the URLs with a host that it writes and that name no file are read as
/// they are, where they are read.
pub open spec fn is_carried_out(walk: Walk) -> bool {
    &&& walk.is_indexable()
    &&& rereads(walk.rewrite, walk.text, walk.entities)
}

/// Applies the rules in their order; `None` where one of them could not be applied.
pub fn apply_rules(
    rules: &Vec<FormattingRule>,
    text: &mut Vec<u16>,
    entities: &mut Vec<MessageEntity>,
) -> (effect: Option<Effect>)
    ensures
        match after_rules(rules@, old(text)@, entity_views(old(entities)@), rules@.len()) {
            Some(draft) => {
                &&& effect == Some(draft.effect)
                &&& final(text)@ == draft.text
                &&& entity_views(final(entities)@) == draft.entities
            },
            None => effect is None,
        },
        effect is Some ==> forall|k: int|
            0 <= k < rules@.len() ==> is_carried_out(
                #[trigger] walk_of(rules@, old(text)@, entity_views(old(entities)@), k),
            ),
{
    let mut effect = Effect::Skipped;
    let mut i: usize = 0;
    let ghost views = entity_views(old(entities)@);
    while i < rules.len()
        invariant
            i <= rules@.len(),
            views == entity_views(old(entities)@),
            after_rules(rules@, old(text)@, views, i as nat) == Some(
                Draft { text: text@, entities: entity_views(entities@), effect },
            ),
            forall|k: int|
                0 <= k < i ==> is_carried_out(#[trigger] walk_of(rules@, old(text)@, views, k)),
        decreases rules@.len() - i,
    {
        match rules[i].try_apply(text, entities) {
            Some(Effect::Mutated) => {
                effect = Effect::Mutated;
            },
            Some(Effect::Skipped) => {},
            None => {
                proof {
                    assert(after_rules(rules@, old(text)@, views, (i + 1) as nat) is None);
                    if after_rules(rules@, old(text)@, views, rules@.len()) is Some {
                        lemma_after_rules_prefix(
                            rules@,
                            old(text)@,
                            views,
                            (i + 1) as nat,
                            rules@.len(),
                        );
                    }
                }
                return None;
            },
        }
        i += 1;
    }
    Some(effect)
}

/// A rule with a plain domain puts that host into every URL that it rewrites, whatever the rules
/// before it left of the message.
pub proof fn law_plain_domain_is_put(
    rules: Seq<FormattingRule>,
    text: Seq<u16>,
    entities: Seq<EntityView>,
    k: int,
)
    requires
        0 <= k < rules.len(),
        puts_plain_domain(rules[k]),
    ensures
        rules[k] matches FormattingRule::HostReplace(rule) ==> puts_host(
            walk_of(rules, text, entities, k).rewrite,
            walk_of(rules, text, entities, k).text,
            walk_of(rules, text, entities, k).entities,
            rule.replace@,
        ),
{
    if let FormattingRule::HostReplace(rule) = rules[k] {
        law_plain_domain_is_written(true, rule.replace@);
        law_plain_domain_is_written(false, rule.replace@);
    }
}

/// Whether a rule leaves a message as it is.
pub open spec fn skips(rule: FormattingRule, text: Seq<u16>, entities: Seq<EntityView>) -> bool {
    after_rule(rule, text, entities) == Some(Draft { text, entities, effect: Effect::Skipped })
}

proof fn lemma_all_skip(
    rules: Seq<FormattingRule>,
    text: Seq<u16>,
    entities: Seq<EntityView>,
    count: nat,
)
    requires
        count <= rules.len(),
    ensures
        after_rules(rules, text, entities, count) == Some(
            Draft { text, entities, effect: Effect::Skipped },
        ) <==> forall|i: int| 0 <= i < count ==> skips(#[trigger] rules[i], text, entities),
    decreases count,
{
    if count > 0 {
        let k = (count - 1) as nat;
        lemma_all_skip(rules, text, entities, k);
        let quiet = Some(Draft { text, entities, effect: Effect::Skipped });
        if after_rules(rules, text, entities, count) == quiet {
            lemma_quiet_step(rules, text, entities, count);
            assert(after_rules(rules, text, entities, k) == quiet);
            assert(skips(rules[k as int], text, entities));
        }
        if forall|i: int| 0 <= i < count ==> skips(#[trigger] rules[i], text, entities) {
            assert(skips(rules[k as int], text, entities));
        }
    }
}

/// What no rule mutated is as it was.
proof fn lemma_quiet_step(
    rules: Seq<FormattingRule>,
    text: Seq<u16>,
    entities: Seq<EntityView>,
    count: nat,
)
    requires
        after_rules(rules, text, entities, count) is Some,
        after_rules(rules, text, entities, count)->0.effect == Effect::Skipped,
    ensures
        after_rules(rules, text, entities, count) == Some(
            Draft { text, entities, effect: Effect::Skipped },
        ),
        count > 0 ==> after_rules(rules, text, entities, (count - 1) as nat) == Some(
            Draft { text, entities, effect: Effect::Skipped },
        ),
    decreases count,
{
    if count > 0 {
        let k = (count - 1) as nat;
        lemma_quiet_step(rules, text, entities, k);
        let rule = rules[k as int];
        law_skipped_changes_nothing(
            Walk { rewrite: |url: UrlView| rule.rewrite(url), text, entities },
        );
    }
}

/// The rules together report that nothing was rewritten exactly where each of them leaves the
/// message as it is; and then it is as it was.
pub proof fn law_skipped_where_every_rule_skips(
    rules: Seq<FormattingRule>,
    text: Seq<u16>,
    entities: Seq<EntityView>,
)
    ensures
        (after_rules(rules, text, entities, rules.len()) is Some && after_rules(
            rules,
            text,
            entities,
            rules.len(),
        )->0.effect == Effect::Skipped) <==> (forall|i: int|
            0 <= i < rules.len() ==> skips(#[trigger] rules[i], text, entities)),
        after_rules(rules, text, entities, rules.len()) matches Some(draft) ==> draft.effect
            == Effect::Skipped ==> draft.text == text && draft.entities == entities,
{
    lemma_all_skip(rules, text, entities, rules.len());
    if after_rules(rules, text, entities, rules.len()) is Some && after_rules(
        rules,
        text,
        entities,
        rules.len(),
    )->0.effect == Effect::Skipped {
        lemma_quiet_step(rules, text, entities, rules.len());
    }
}

proof fn lemma_entity_count(
    rules: Seq<FormattingRule>,
    text: Seq<u16>,
    entities: Seq<EntityView>,
    count: nat,
)
    requires
        after_rules(rules, text, entities, count) is Some,
    ensures
        after_rules(rules, text, entities, count)->0.entities.len() == entities.len(),
    decreases count,
{
    if count > 0 {
        let k = (count - 1) as nat;
        lemma_entity_count(rules, text, entities, k);
        let earlier = after_rules(rules, text, entities, k)->0;
        let rule = rules[k as int];
        law_entities_keep_their_kinds(
            Walk {
                rewrite: |url: UrlView| rule.rewrite(url),
                text: earlier.text,
                entities: earlier.entities,
            },
        );
    }
}

/// The rules together neither add nor drop an entity.
pub proof fn law_rules_keep_every_entity(
    rules: Seq<FormattingRule>,
    text: Seq<u16>,
    entities: Seq<EntityView>,
)
    requires
        after_rules(rules, text, entities, rules.len()) is Some,
    ensures
        after_rules(rules, text, entities, rules.len())->0.entities.len() == entities.len(),
{
    lemma_entity_count(rules, text, entities, rules.len());
}

/// Whether a rule is for the URLs of a host.
pub open spec fn matches_host(rule: FormattingRule, host: Seq<char>) -> bool {
    match rule {
        FormattingRule::QueryExclude(rule) => regex_matches(rule.host_regex@, host),
        FormattingRule::HostReplace(rule) => regex_matches(rule.host_regex@, host),
    }
}

/// Whether no rule is for a host that a rule puts into URLs.
pub open spec fn hosts_are_final(rules: Seq<FormattingRule>) -> bool {
    forall|j: int, k: int|
        0 <= j < rules.len() && 0 <= k < rules.len() ==> is_final_for(
            #[trigger] rules[k],
            #[trigger] rules[j],
        )
}

/// Whether a rule is not for the host that another rule puts into URLs, if it does.
pub open spec fn is_final_for(rule: FormattingRule, other: FormattingRule) -> bool {
    rule matches FormattingRule::HostReplace(rule) ==> forall|special: bool|
        (#[trigger] host_written(special, rule.replace@)) matches Some(host) ==> host.len() > 0
            ==> !matches_host(other, host)
}

proof fn lemma_kept_are_among(
    pairs: Seq<(Seq<char>, Seq<char>)>,
    exclude: Set<Seq<char>>,
    other: Set<Seq<char>>,
)
    ensures
        has_excluded(kept_pairs(pairs, exclude), other) ==> has_excluded(pairs, other),
    decreases pairs.len(),
{
    reveal(Seq::filter);
    if pairs.len() > 0 {
        let shorter = pairs.drop_last();
        lemma_kept_are_among(shorter, exclude, other);
        let kept = kept_pairs(pairs, exclude);
        if has_excluded(kept, other) {
            let i = choose|i: int| 0 <= i < kept.len() && other.contains((#[trigger] kept[i]).0);
            if i < kept_pairs(shorter, exclude).len() {
                assert(other.contains(kept_pairs(shorter, exclude)[i].0));
                let j = choose|j: int|
                    0 <= j < shorter.len() && other.contains((#[trigger] shorter[j]).0);
                assert(other.contains(pairs[j].0));
            } else {
                assert(other.contains(pairs[pairs.len() - 1].0));
            }
        }
    }
}

/// A rule that leaves a URL as it is also leaves as it is what another rule makes of it, and so
/// does that rule itself.
proof fn lemma_stays_kept(rule: FormattingRule, other: FormattingRule, url: UrlView)
    requires
        is_final_for(rule, other),
        is_final_for(other, other),
        other.rewrite(url) is Keep || other == rule,
    ensures
        rule.rewrite(url) matches Rewrite::Replace(new) ==> other.rewrite(new) is Keep,
{
    match rule {
        FormattingRule::QueryExclude(rule) => {
            law_excluded_parameters_are_gone(rule, url);
            if let FormattingRule::QueryExclude(other) = other {
                lemma_kept_are_among(pairs_of(url), rule.exclude@, other.exclude@);
            }
        },
        FormattingRule::HostReplace(rule) => {
            law_host_alone_is_replaced(rule, url);
        },
    }
}

/// Whether the URLs in a text are tidy, and those that the rules rewrite become URLs with a host
/// that name no file.
pub open spec fn goes_ordinarily(
    rules: Seq<FormattingRule>,
    text: Seq<u16>,
    entities: Seq<EntityView>,
) -> bool {
    &&& has_tidy_urls(text, entities)
    &&& forall|k: int|
        0 <= k < rules.len() ==> {
            let walk = #[trigger] walk_of(rules, text, entities, k);
            &&& writes_readable_urls(walk)
            &&& is_carried_out(walk)
        }
}

proof fn lemma_urls_stay_tidy(
    rules: Seq<FormattingRule>,
    text: Seq<u16>,
    entities: Seq<EntityView>,
    count: nat,
)
    requires
        count <= rules.len(),
        after_rules(rules, text, entities, count) is Some,
        goes_ordinarily(rules, text, entities),
    ensures
        ({
            let draft = after_rules(rules, text, entities, count)->0;
            has_tidy_urls(draft.text, draft.entities)
        }),
    decreases count,
{
    if count > 0 {
        let k = count - 1;
        lemma_urls_stay_tidy(rules, text, entities, k as nat);
        let walk = walk_of(rules, text, entities, k);
        assert(writes_readable_urls(walk) && is_carried_out(walk));
        law_tidy_urls_stay_tidy(walk);
    }
}

proof fn lemma_rules_settle(
    rules: Seq<FormattingRule>,
    text: Seq<u16>,
    entities: Seq<EntityView>,
    count: nat,
    j: int,
)
    requires
        count <= rules.len(),
        0 <= j < count,
        after_rules(rules, text, entities, count) is Some,
        hosts_are_final(rules),
        goes_ordinarily(rules, text, entities),
    ensures
        ({
            let rule = rules[j];
            let draft = after_rules(rules, text, entities, count)->0;
            is_settled(|url: UrlView| rule.rewrite(url), draft.text, draft.entities)
        }),
    decreases count,
{
    let k = count - 1;
    let walk = walk_of(rules, text, entities, k);
    let rule = rules[k];
    let other = rules[j];
    let rewrite = |url: UrlView| other.rewrite(url);
    lemma_urls_stay_tidy(rules, text, entities, k as nat);
    assert(writes_readable_urls(walk));
    assert(is_carried_out(walk));
    assert(walk.result() is Some);
    if j < k {
        lemma_rules_settle(rules, text, entities, k as nat, j);
        assert(is_settled(rewrite, walk.text, walk.entities));
    }
    assert(is_final_for(rules[k], rules[j]));
    assert(is_final_for(rules[j], rules[j]));
    assert(keeps_what_it_makes(walk, rewrite)) by {
        assert forall|i: int| 0 <= i < walk.entities.len() implies match #[trigger] decision(
            walk.rewrite,
            walk.text,
            walk.entities[i],
        ) {
            Rewrite::Keep => decision(rewrite, walk.text, walk.entities[i]) is Keep,
            Rewrite::Replace(new) => {
                &&& rewrite(new) is Keep
                &&& walk.entities[i].kind is Url ==> keeps_reread(rewrite, new)
            },
            Rewrite::TooLong => true,
        } by {
            assert(j < k ==> decision(rewrite, walk.text, walk.entities[i]) is Keep);
            if let Rewrite::Replace(new) = decision(walk.rewrite, walk.text, walk.entities[i]) {
                let url = url_of(walk.text, walk.entities[i])->0;
                lemma_stays_kept(rule, other, url);
                if walk.entities[i].kind is Url {
                    lemma_reread_url(walk, i);
                }
            }
        }
    }
    law_walk_settles(walk, rewrite);
}

/// After the rules, each of them has nothing left to rewrite, if the URLs in the text are tidy,
/// those that are rewritten become URLs with a host that name no file, and no rule is for a host
/// that one of them puts into URLs.
pub proof fn law_rules_leave_nothing_to_rewrite(
    rules: Seq<FormattingRule>,
    text: Seq<u16>,
    entities: Seq<EntityView>,
    j: int,
)
    requires
        0 <= j < rules.len(),
        after_rules(rules, text, entities, rules.len()) is Some,
        hosts_are_final(rules),
        goes_ordinarily(rules, text, entities),
    ensures
        ({
            let rule = rules[j];
            let draft = after_rules(rules, text, entities, rules.len())->0;
            &&& is_settled(|url: UrlView| rule.rewrite(url), draft.text, draft.entities)
            &&& skips(rule, draft.text, draft.entities)
        }),
{
    lemma_rules_settle(rules, text, entities, rules.len(), j);
    let rule = rules[j];
    let draft = after_rules(rules, text, entities, rules.len())->0;
    law_settled_message_is_skipped(
        Walk {
            rewrite: |url: UrlView| rule.rewrite(url),
            text: draft.text,
            entities: draft.entities,
        },
    );
}

/// A rule for messages decides on every URL as the rule decides that it is.
pub proof fn law_rules_decide_alike(
    replacing: UrlHostReplaceRule,
    excluding: UrlQueryExcludeRule,
    url: UrlView,
)
    ensures
        FormattingRule::HostReplace(replacing).rewrite(url) == replacing.rewrite(url),
        FormattingRule::QueryExclude(excluding).rewrite(url) == excluding.rewrite(url),
{
}

/// Without rules a message stays as it is; and one rule makes of it what its walk makes of it.
pub proof fn law_one_rule_is_its_walk(
    rule: FormattingRule,
    text: Seq<u16>,
    entities: Seq<EntityView>,
)
    ensures
        after_rules(Seq::empty(), text, entities, 0) == Some(
            Draft { text, entities, effect: Effect::Skipped },
        ),
        after_rules(seq![rule], text, entities, 1) == rewritten(
            |url: UrlView| rule.rewrite(url),
            text,
            entities,
        ),
{
    reveal_with_fuel(after_rules, 2);
}

proof fn lemma_same_rules(
    rules: Seq<FormattingRule>,
    others: Seq<FormattingRule>,
    text: Seq<u16>,
    entities: Seq<EntityView>,
    count: nat,
)
    requires
        count <= rules.len(),
        count <= others.len(),
        forall|i: int| 0 <= i < count ==> #[trigger] rules[i] == others[i],
    ensures
        after_rules(rules, text, entities, count) == after_rules(others, text, entities, count),
    decreases count,
{
    if count > 0 {
        lemma_same_rules(rules, others, text, entities, (count - 1) as nat);
        assert(rules[count - 1] == others[count - 1]);
    }
}

/// Some rules and then others make of a message what the others make of what the first ones left;
/// and it is mutated where either mutated it.
pub proof fn law_rules_apply_in_turn(
    first: Seq<FormattingRule>,
    second: Seq<FormattingRule>,
    text: Seq<u16>,
    entities: Seq<EntityView>,
)
    ensures
        after_rules(first + second, text, entities, (first + second).len()) == (match after_rules(
            first,
            text,
            entities,
            first.len(),
        ) {
            Some(between) => match after_rules(
                second,
                between.text,
                between.entities,
                second.len(),
            ) {
                Some(last) => Some(
                    Draft {
                        text: last.text,
                        entities: last.entities,
                        effect: if between.effect == Effect::Mutated {
                            Effect::Mutated
                        } else {
                            last.effect
                        },
                    },
                ),
                None => None,
            },
            None => None,
        }),
    decreases second.len(),
{
    let rules = first + second;
    if second.len() == 0 {
        assert(rules =~= first);
    } else {
        let shorter = second.drop_last();
        law_rules_apply_in_turn(first, shorter, text, entities);
        let k = (rules.len() - 1) as nat;
        lemma_same_rules(rules, first + shorter, text, entities, k);
        assert(rules[k as int] == second.last());
        if let Some(between) = after_rules(first, text, entities, first.len()) {
            lemma_same_rules(
                second,
                shorter,
                between.text,
                between.entities,
                shorter.len(),
            );
        }
    }
}

} // verus!
