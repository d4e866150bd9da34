//! What the rules keep of URLs and of messages.

use vstd::prelude::*;

use crate::address::{
    can_be_reread, host_fits, host_written, is_plain_domain, is_special,
    law_plain_domain_is_written, pairs_of, query_fits, with_host_in, with_query_in, UrlView,
};
use crate::entity::{EntityView, KindView};
use crate::form::{
    clean_pairs, form_pairs, form_query, is_clean, law_written_query_is_clean,
    law_written_query_is_read_back,
};
use crate::formatter::laws::{
    has_tidy_urls, keeps_reread, keeps_what_it_makes, kind_after, law_entities_keep_their_kinds,
    law_settled_message_is_skipped, law_walk_settles, lemma_links_are_short, lemma_reread_url,
    Walk,
};
use crate::formatter::rule::{
    has_excluded, kept_pairs, UrlHostReplaceRule, UrlQueryExcludeRule,
};
use crate::formatter::walk::{
    decision, put_at, rereads, rewritten, stays_indexable, url_of, Draft, Effect, Rewrite,
    UrlRewriter,
};
use crate::pattern::regex_matches;

verus! {

/// Whether the URLs that a walk rewrites in the text become URLs with a host that name no file.
pub open spec fn writes_readable_urls(walk: Walk) -> bool {
    forall|i: int|
        0 <= i < walk.entities.len() && (#[trigger] walk.replacement(i)) is Some ==> can_be_reread(
            walk.replacement(i)->0,
        )
}

/// Whether the URLs in a text are tidy, and those that are rewritten become URLs with a host that
/// name no file.
pub open spec fn is_ordinary(
    rewrite: spec_fn(UrlView) -> Rewrite,
    text: Seq<u16>,
    entities: Seq<EntityView>,
) -> bool {
    &&& has_tidy_urls(text, entities)
    &&& writes_readable_urls(Walk { rewrite, text, entities })
}

/// Whether nothing but the host and the text differs.
pub open spec fn only_host_differs(a: UrlView, b: UrlView) -> bool {
    &&& a.scheme == b.scheme
    &&& a.username == b.username
    &&& a.password == b.password
    &&& a.port == b.port
    &&& a.path == b.path
    &&& a.query == b.query
    &&& a.fragment == b.fragment
}

/// Whether nothing but the query and the text differs.
pub open spec fn only_query_differs(a: UrlView, b: UrlView) -> bool {
    &&& a.scheme == b.scheme
    &&& a.username == b.username
    &&& a.password == b.password
    &&& a.host == b.host
    &&& a.port == b.port
    &&& a.path == b.path
    &&& a.fragment == b.fragment
}

/// What a rule makes of a URL.
pub open spec fn url_after(rewrite: Rewrite, url: UrlView) -> UrlView {
    match rewrite {
        Rewrite::Replace(new) => new,
        _ => url,
    }
}

/// A rule that replaces the host changes nothing else. The host is the same for all URLs with a
/// special scheme, and for all others; and a rule that does not match that host leaves the URL as
/// it is then.
pub proof fn law_host_alone_is_replaced(rule: UrlHostReplaceRule, url: UrlView)
    ensures
        rule.rewrite(url) matches Rewrite::Replace(new) ==> {
            &&& only_host_differs(url, new)
            &&& new.host != url.host
            &&& host_written(is_special(url.scheme), rule.replace@) matches Some(host)
            &&& new.host == (if host.len() == 0 { None } else { Some(host) })
            &&& pairs_of(new) == pairs_of(url)
            &&& rule.is_final() ==> rule.rewrite(new) is Keep
        },
{
}

/// No excluded pair is kept, and without excluded pairs all are.
pub proof fn lemma_kept_pairs(pairs: Seq<(Seq<char>, Seq<char>)>, exclude: Set<Seq<char>>)
    ensures
        !has_excluded(kept_pairs(pairs, exclude), exclude),
        !has_excluded(pairs, exclude) ==> kept_pairs(pairs, exclude) == pairs,
    decreases pairs.len(),
{
    reveal(Seq::filter);
    if pairs.len() > 0 {
        let shorter = pairs.drop_last();
        lemma_kept_pairs(shorter, exclude);
        let kept = kept_pairs(pairs, exclude);
        if has_excluded(kept, exclude) {
            let i = choose|i: int| 0 <= i < kept.len() && exclude.contains((#[trigger] kept[i]).0);
            if i < kept_pairs(shorter, exclude).len() {
                assert(exclude.contains(kept_pairs(shorter, exclude)[i].0));
            }
        }
        if !has_excluded(pairs, exclude) {
            assert(!exclude.contains(pairs.last().0)) by {
                assert(pairs[pairs.len() - 1] == pairs.last());
            }
            if has_excluded(shorter, exclude) {
                let i = choose|i: int|
                    0 <= i < shorter.len() && exclude.contains((#[trigger] shorter[i]).0);
                assert(exclude.contains(pairs[i].0));
            }
            assert(kept =~= pairs);
        }
    } else {
        assert(kept_pairs(pairs, exclude) =~= pairs);
    }
}

/// A rule that excludes parameters changes nothing but the query, which holds the other parameters
/// in their order then. Nothing is left to exclude.
pub proof fn law_excluded_parameters_are_gone(rule: UrlQueryExcludeRule, url: UrlView)
    ensures
        rule.rewrite(url) matches Rewrite::Replace(new) ==> {
            &&& only_query_differs(url, new)
            &&& pairs_of(new) == kept_pairs(pairs_of(url), rule.exclude@)
            &&& rule.filtered(new) is None
            &&& rule.rewrite(new) is Keep
        },
        !(rule.rewrite(url) is TooLong) ==> rule.filtered(url_after(rule.rewrite(url), url)) is None,
{
    let kept = kept_pairs(pairs_of(url), rule.exclude@);
    law_written_query_is_read_back(kept);
    lemma_kept_pairs(pairs_of(url), rule.exclude@);
    if rule.filtered(url) is Some && form_query(kept).len() == 0 {
        assert(kept =~= Seq::empty());
    }
}

/// Whether each link with a matching host has the host of a rule afterwards, unless that is
/// refused, and the rest of it stays; and the other links stay.
pub open spec fn links_have_the_host(
    rule: UrlHostReplaceRule,
    before: Seq<EntityView>,
    now: Seq<EntityView>,
) -> bool {
    &&& now.len() == before.len()
    &&& forall|i: int|
        0 <= i < before.len() ==> ((#[trigger] before[i]).kind matches KindView::TextLink { url }
            ==> {
            &&& now[i].kind matches KindView::TextLink { url: new }
            &&& new == url || {
                &&& only_host_differs(url, new)
                &&& host_written(is_special(url.scheme), rule.replace@) matches Some(host)
                &&& new.host == (if host.len() == 0 { None } else { Some(host) })
            }
            &&& new == url_after(rule.rewrite(url), url)
        })
}

/// Whether no link with a matching host has an excluded parameter afterwards, its other parameters
/// stay in their order and so does the rest of it; and the other links stay.
pub open spec fn links_are_excluded(
    rule: UrlQueryExcludeRule,
    before: Seq<EntityView>,
    now: Seq<EntityView>,
) -> bool {
    &&& now.len() == before.len()
    &&& forall|i: int|
        0 <= i < before.len() ==> ((#[trigger] before[i]).kind matches KindView::TextLink { url }
            ==> {
            &&& now[i].kind matches KindView::TextLink { url: new }
            &&& only_query_differs(url, new)
            &&& rule.filtered(new) is None
            &&& if rule.is_for(url) {
                pairs_of(new) == kept_pairs(pairs_of(url), rule.exclude@)
            } else {
                new == url
            }
        })
}

/// What a rule that replaces the host does to the links of a message.
pub proof fn lemma_replaced_links(
    rule: UrlHostReplaceRule,
    text: Seq<u16>,
    entities: Seq<EntityView>,
)
    requires
        rewritten(|url: UrlView| rule.rewrite(url), text, entities) is Some,
    ensures
        links_have_the_host(
            rule,
            entities,
            rewritten(|url: UrlView| rule.rewrite(url), text, entities)->0.entities,
        ),
{
    let rewrite = |url: UrlView| rule.rewrite(url);
    let walk = Walk { rewrite, text, entities };
    law_entities_keep_their_kinds(walk);
}

/// Whether every URL that a rewriter puts in the place of another one has a certain host.
pub open spec fn puts_host(
    rewrite: spec_fn(UrlView) -> Rewrite,
    text: Seq<u16>,
    entities: Seq<EntityView>,
    host: Seq<char>,
) -> bool {
    forall|k: int|
        0 <= k < entities.len() && (#[trigger] put_at(rewrite, text, entities, k)) is Some
            ==> put_at(rewrite, text, entities, k)->0.host == Some(host)
}

/// A rule with a plain domain puts that host into every URL.
pub proof fn lemma_puts_host(
    rule: UrlHostReplaceRule,
    text: Seq<u16>,
    entities: Seq<EntityView>,
)
    requires
        is_plain_domain(rule.replace@),
    ensures
        puts_host(|url: UrlView| rule.rewrite(url), text, entities, rule.replace@),
{
    law_plain_domain_is_written(true, rule.replace@);
    law_plain_domain_is_written(false, rule.replace@);
}

/// A rule with a plain domain does not match the host that it puts into URLs, if it does not match
/// that domain.
pub proof fn law_plain_domain_is_final(rule: UrlHostReplaceRule)
    requires
        is_plain_domain(rule.replace@),
        !regex_matches(rule.host_regex@, rule.replace@),
    ensures
        rule.is_final(),
{
    law_plain_domain_is_written(true, rule.replace@);
    law_plain_domain_is_written(false, rule.replace@);
    assert forall|special: bool|
        (#[trigger] host_written(special, rule.replace@)) matches Some(host) implies !regex_matches(
        rule.host_regex@,
        host_written(special, rule.replace@)->0,
    ) by {
        law_plain_domain_is_written(special, rule.replace@);
    }
}

/// What a rule that excludes parameters does to the links of a message.
pub proof fn lemma_excluded_links(
    rule: UrlQueryExcludeRule,
    text: Seq<u16>,
    entities: Seq<EntityView>,
)
    requires
        rewritten(|url: UrlView| rule.rewrite(url), text, entities) is Some,
    ensures
        links_are_excluded(
            rule,
            entities,
            rewritten(|url: UrlView| rule.rewrite(url), text, entities)->0.entities,
        ),
{
    let rewrite = |url: UrlView| rule.rewrite(url);
    let walk = Walk { rewrite, text, entities };
    let draft = walk.result()->0;
    law_entities_keep_their_kinds(walk);
    assert forall|i: int| 0 <= i < entities.len() implies ((
    #[trigger] entities[i]).kind matches KindView::TextLink { url } ==> {
        &&& draft.entities[i].kind matches KindView::TextLink { url: new }
        &&& only_query_differs(url, new)
        &&& rule.filtered(new) is None
        &&& if rule.is_for(url) {
            pairs_of(new) == kept_pairs(pairs_of(url), rule.exclude@)
        } else {
            new == url
        }
    }) by {
        if let KindView::TextLink { url } = entities[i].kind {
            assert(draft.entities[i].kind == kind_after(rewrite, entities[i].kind));
            law_excluded_parameters_are_gone(rule, url);
            lemma_kept_pairs(pairs_of(url), rule.exclude@);
            lemma_links_are_short(walk, i);
        }
    }
}

/// A second application of a rule that replaces the host skips an ordinary message, if the rule
/// does not match that host.
pub proof fn law_second_replacement_skips(
    rule: UrlHostReplaceRule,
    text: Seq<u16>,
    entities: Seq<EntityView>,
)
    requires
        rule.is_final(),
        is_ordinary(|url: UrlView| rule.rewrite(url), text, entities),
        rewritten(|url: UrlView| rule.rewrite(url), text, entities) is Some,
        rereads(|url: UrlView| rule.rewrite(url), text, entities),
        stays_indexable(|url: UrlView| rule.rewrite(url), text, entities),
    ensures
        rewritten(|url: UrlView| rule.rewrite(url), text, entities) matches Some(draft)
            && rewritten(|url: UrlView| rule.rewrite(url), draft.text, draft.entities) == Some(
            Draft { effect: Effect::Skipped, ..draft },
        ),
{
    let rewrite = |url: UrlView| rule.rewrite(url);
    let walk = Walk { rewrite, text, entities };
    assert forall|url: UrlView| #[trigger] is_done_at_once(rewrite, url) by {
        law_host_alone_is_replaced(rule, url);
    }
    lemma_second_walk(walk);
}

/// A second application of a rule that excludes parameters skips an ordinary message.
pub proof fn law_second_exclusion_skips(
    rule: UrlQueryExcludeRule,
    text: Seq<u16>,
    entities: Seq<EntityView>,
)
    requires
        is_ordinary(|url: UrlView| rule.rewrite(url), text, entities),
        rewritten(|url: UrlView| rule.rewrite(url), text, entities) is Some,
        rereads(|url: UrlView| rule.rewrite(url), text, entities),
        stays_indexable(|url: UrlView| rule.rewrite(url), text, entities),
    ensures
        rewritten(|url: UrlView| rule.rewrite(url), text, entities) matches Some(draft)
            && rewritten(|url: UrlView| rule.rewrite(url), draft.text, draft.entities) == Some(
            Draft { effect: Effect::Skipped, ..draft },
        ),
{
    let rewrite = |url: UrlView| rule.rewrite(url);
    let walk = Walk { rewrite, text, entities };
    assert forall|url: UrlView| #[trigger] is_done_at_once(rewrite, url) by {
        law_excluded_parameters_are_gone(rule, url);
    }
    lemma_second_walk(walk);
}

/// Whether a rewriter leaves as it is what it makes of a URL.
pub open spec fn is_done_at_once(rewrite: spec_fn(UrlView) -> Rewrite, url: UrlView) -> bool {
    rewrite(url) matches Rewrite::Replace(new) ==> rewrite(new) is Keep
}

/// A rewriter that leaves as it is what it makes of URLs skips a message that it has rewritten.
proof fn lemma_second_walk(walk: Walk)
    requires
        is_ordinary(walk.rewrite, walk.text, walk.entities),
        walk.result() is Some,
        rereads(walk.rewrite, walk.text, walk.entities),
        walk.is_indexable(),
        forall|url: UrlView| #[trigger] is_done_at_once(walk.rewrite, url),
    ensures
        walk.result() matches Some(draft) && rewritten(walk.rewrite, draft.text, draft.entities)
            == Some(Draft { effect: Effect::Skipped, ..draft }),
{
    let draft = walk.result()->0;
    assert(keeps_what_it_makes(walk, walk.rewrite)) by {
        assert forall|i: int| 0 <= i < walk.entities.len() implies match #[trigger] decision(
            walk.rewrite,
            walk.text,
            walk.entities[i],
        ) {
            Rewrite::Keep => decision(walk.rewrite, walk.text, walk.entities[i]) is Keep,
            Rewrite::Replace(new) => {
                &&& (walk.rewrite)(new) is Keep
                &&& walk.entities[i].kind is Url ==> keeps_reread(walk.rewrite, new)
            },
            Rewrite::TooLong => true,
        } by {
            if let Rewrite::Replace(new) = decision(walk.rewrite, walk.text, walk.entities[i]) {
                let url = url_of(walk.text, walk.entities[i])->0;
                assert(is_done_at_once(walk.rewrite, url));
                if walk.entities[i].kind is Url {
                    lemma_reread_url(walk, i);
                }
            }
        }
    }
    law_walk_settles(walk, walk.rewrite);
    law_settled_message_is_skipped(
        Walk { rewrite: walk.rewrite, text: draft.text, entities: draft.entities },
    );
}

/// A URL whose host matches gets the host of the rule, unless that is refused, is its host already
/// or leads beyond the limits of URLs.
pub proof fn law_matching_host_is_replaced(rule: UrlHostReplaceRule, url: UrlView, host: Seq<char>)
    requires
        url.host == Some(host),
        regex_matches(rule.host_regex@, host),
    ensures
        host_written(is_special(url.scheme), rule.replace@) is None ==> rule.rewrite(url) is Keep,
        host_written(is_special(url.scheme), rule.replace@) matches Some(new) ==> {
            &&& new == host && new.len() > 0 ==> rule.rewrite(url) is Keep
            &&& new != host && url.text.len() + new.len() <= 0xFFFF_FFFF ==> (rule.rewrite(
                url,
            ) matches Rewrite::Replace(changed) && {
                &&& changed == with_host_in(url, new)
                &&& new.len() > 0 ==> changed.host == Some(new)
            })
            &&& rule.rewrite(url) is TooLong ==> url.text.len() + new.len() > 0xFFFF_FFFF
            &&& new != host && host_fits(url, new) ==> rule.rewrite(url) == Rewrite::Replace(
                with_host_in(url, new),
            )
            &&& new != host && !host_fits(url, new) ==> rule.rewrite(url) is TooLong
        },
        is_plain_domain(rule.replace@) && rule.replace@ != host && url.text.len()
            + rule.replace@.len() <= 0xFFFF_FFFF ==> (rule.rewrite(url) matches Rewrite::Replace(
            changed,
        ) && {
            &&& changed.host == Some(rule.replace@)
            &&& changed.scheme == url.scheme
            &&& changed.username == url.username
            &&& changed.password == url.password
            &&& changed.port == url.port
            &&& changed.path == url.path
            &&& changed.query == url.query
            &&& changed.fragment == url.fragment
        }),
{
    if is_plain_domain(rule.replace@) {
        law_plain_domain_is_written(is_special(url.scheme), rule.replace@);
    }
}

/// A URL whose host does not match, or that has none, is left as it is by both rules.
pub proof fn law_other_hosts_are_left(
    rule: UrlHostReplaceRule,
    other: UrlQueryExcludeRule,
    url: UrlView,
)
    ensures
        (url.host matches Some(host) ==> !regex_matches(rule.host_regex@, host)) ==> rule.rewrite(
            url,
        ) is Keep,
        (url.host matches Some(host) ==> !regex_matches(other.host_regex@, host)) ==> other.rewrite(
            url,
        ) is Keep && other.filtered(url) is None,
{
}

/// The names and values in the query of a URL are those that are read in it, and there are none
/// without a query.
pub proof fn law_query_is_read(url: UrlView, query: Seq<char>)
    ensures
        url.query is None ==> pairs_of(url).len() == 0,
        url.query == Some(query) && is_clean(query) ==> pairs_of(url) == clean_pairs(query),
        url.query == Some(query) && !is_clean(query) ==> pairs_of(url) == form_pairs(query),
{
}

/// Exactly the pairs with an excluded name are dropped, and the others stay in their order.
pub proof fn law_pairs_are_kept_in_order(
    pairs: Seq<(Seq<char>, Seq<char>)>,
    exclude: Set<Seq<char>>,
    pair: (Seq<char>, Seq<char>),
)
    ensures
        kept_pairs(Seq::empty(), exclude).len() == 0,
        exclude.contains(pair.0) ==> kept_pairs(pairs.push(pair), exclude) == kept_pairs(
            pairs,
            exclude,
        ),
        !exclude.contains(pair.0) ==> kept_pairs(pairs.push(pair), exclude) == kept_pairs(
            pairs,
            exclude,
        ).push(pair),
        !has_excluded(Seq::empty(), exclude),
        has_excluded(pairs.push(pair), exclude) <==> has_excluded(pairs, exclude)
            || exclude.contains(pair.0),
{
    reveal(Seq::filter);
    let longer = pairs.push(pair);
    assert(longer.drop_last() =~= pairs);
    if has_excluded(pairs, exclude) {
        let i = choose|i: int| 0 <= i < pairs.len() && exclude.contains((#[trigger] pairs[i]).0);
        assert(exclude.contains(longer[i].0));
    }
    if exclude.contains(pair.0) {
        assert(exclude.contains(longer[pairs.len() as int].0));
    }
    if has_excluded(longer, exclude) {
        let i = choose|i: int| 0 <= i < longer.len() && exclude.contains((#[trigger] longer[i]).0);
        if i < pairs.len() {
            assert(exclude.contains(pairs[i].0));
        }
    }
}

/// A URL whose host matches loses its excluded parameters, unless that leads beyond the limits of
/// URLs: what is read in its query then are the other parameters, and without any it has no query.
/// A URL without excluded parameters is left as it is.
pub proof fn law_excluded_parameters_are_dropped(
    rule: UrlQueryExcludeRule,
    url: UrlView,
    host: Seq<char>,
    pairs: Seq<(Seq<char>, Seq<char>)>,
)
    requires
        url.host == Some(host),
        regex_matches(rule.host_regex@, host),
        url.query is None ==> pairs.len() == 0,
        url.query matches Some(query) ==> is_clean(query) ==> pairs == clean_pairs(query),
        url.query matches Some(query) ==> !is_clean(query) ==> pairs == form_pairs(query),
    ensures
        (forall|i: int| 0 <= i < pairs.len() ==> !rule.exclude@.contains((#[trigger] pairs[i]).0))
            ==> rule.rewrite(url) is Keep && rule.filtered(url) is None,
        (exists|i: int| 0 <= i < pairs.len() && rule.exclude@.contains((#[trigger] pairs[i]).0))
            ==> drops_excluded(
            rule,
            url,
            pairs.filter(|pair: (Seq<char>, Seq<char>)| !rule.exclude@.contains(pair.0)),
        ),
{
    let kept = pairs.filter(|pair: (Seq<char>, Seq<char>)| !rule.exclude@.contains(pair.0));
    assert(pairs_of(url) =~= pairs);
    assert(kept_pairs(pairs, rule.exclude@) == kept);
    law_written_query_is_clean(kept);
    law_excluded_parameters_are_gone(rule, url);
    if exists|i: int| 0 <= i < pairs.len() && rule.exclude@.contains((#[trigger] pairs[i]).0) {
        assert(has_excluded(pairs, rule.exclude@));
        assert(rule.filtered(url) == Some(form_query(kept)));
    }
}

/// Whether a rule leaves some parameters of a URL and drops its query where there are none, unless
/// that leads beyond the limits of URLs, and changes nothing else.
pub open spec fn drops_excluded(
    rule: UrlQueryExcludeRule,
    url: UrlView,
    kept: Seq<(Seq<char>, Seq<char>)>,
) -> bool {
    let size = url.text.len() + form_query(kept).len();
    &&& rule.filtered(url) == Some(form_query(kept))
    &&& rule.rewrite(url) is TooLong ==> size >= 0xFFFF_FFFF
    &&& rule.rewrite(url) is TooLong <==> !query_fits(
        url,
        (if kept.len() == 0 {
            None
        } else {
            Some(form_query(kept))
        }),
    )
    &&& rule.rewrite(url) is TooLong || rule.rewrite(url) is Replace
    &&& size < 0xFFFF_FFFF ==> (rule.rewrite(url) matches Rewrite::Replace(changed) && {
        &&& kept.len() == 0 ==> changed.query is None
        &&& kept.len() > 0 ==> (changed.query matches Some(query) && query.len() > 0 && is_clean(
            query,
        ) && clean_pairs(query) == kept)
        &&& changed == with_query_in(url, changed.query)
        &&& changed.scheme == url.scheme
        &&& changed.username == url.username
        &&& changed.password == url.password
        &&& changed.host == url.host
        &&& changed.port == url.port
        &&& changed.path == url.path
        &&& changed.fragment == url.fragment
    })
}

} // verus!
