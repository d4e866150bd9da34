//! The rules.

use vstd::prelude::*;

use crate::address::{
    host_fits, host_written, is_plain_domain, is_special, optional_chars, pairs_of,
    query_fits, with_host_in, with_query_in, write_host, Url, UrlView,
};
use crate::entity::{entity_views, MessageEntity};
use crate::form::{form_query, law_written_query_is_read_back, pair_chars, write_query};
use crate::formatter::rule_laws::{
    is_ordinary, law_second_exclusion_skips, law_second_replacement_skips,
    lemma_excluded_links, lemma_puts_host, lemma_replaced_links, links_are_excluded,
    links_have_the_host, puts_host,
};
use crate::formatter::walk::{
    can_visit_all, for_each_url_mut, rereads, rewritten, stays_indexable, Draft, Effect, Rewrite,
    UrlRewrite, UrlRewriter,
};
use crate::keys::KeySet;
use crate::pattern::{regex_matches, Regex};

verus! {

/// A rule that inspects the URLs of a message and may rewrite them.
pub trait Rule: UrlRewriter {
    /// Rewrites the URLs in the text and the entities.
    fn apply(&self, text: &mut Vec<u16>, entities: &mut Vec<MessageEntity>) -> (effect: Effect)
        requires
            rewritten(
                |url: UrlView| self.rewrite(url),
                old(text)@,
                entity_views(old(entities)@),
            ) is Some,
        ensures
            rewritten(
                |url: UrlView| self.rewrite(url),
                old(text)@,
                entity_views(old(entities)@),
            ) == Some(
                Draft { text: final(text)@, entities: entity_views(final(entities)@), effect },
            ),
            rereads(|url: UrlView| self.rewrite(url), old(text)@, entity_views(old(entities)@)),
            stays_indexable(
                |url: UrlView| self.rewrite(url),
                old(text)@,
                entity_views(old(entities)@),
            ),
    ;

    /// Rewrites the URLs in the text and the entities, or leaves both as they are where an
    /// entity is not within the text or a URL is too long.
    fn try_apply(&self, text: &mut Vec<u16>, entities: &mut Vec<MessageEntity>) -> (effect: Option<
        Effect,
    >)
        ensures
            match rewritten(
                |url: UrlView| self.rewrite(url),
                old(text)@,
                entity_views(old(entities)@),
            ) {
                Some(draft) => {
                    &&& effect == Some(draft.effect)
                    &&& final(text)@ == draft.text
                    &&& entity_views(final(entities)@) == draft.entities
                    &&& rereads(
                        |url: UrlView| self.rewrite(url),
                        old(text)@,
                        entity_views(old(entities)@),
                    )
                    &&& stays_indexable(
                        |url: UrlView| self.rewrite(url),
                        old(text)@,
                        entity_views(old(entities)@),
                    )
                },
                None => {
                    &&& effect is None
                    &&& final(text)@ == old(text)@
                    &&& final(entities)@ == old(entities)@
                },
            },
    ;
}

/// Replaces the host of matching URLs with a fixed value.
pub struct UrlHostReplaceRule {
    pub host_regex: Regex,
    pub replace: String,
}

impl UrlHostReplaceRule {
    /// Whether the rule does not match the host that it puts into URLs.
    pub open spec fn is_final(&self) -> bool {
        forall|special: bool|
            (#[trigger] host_written(special, self.replace@)) matches Some(host) ==> host.len() > 0
                ==> !regex_matches(self.host_regex@, host)
    }
}

impl UrlRewriter for UrlHostReplaceRule {
    /// A URL whose host matches gets the other host, unless that is refused or is its host
    /// already.
    open spec fn rewrite(&self, url: UrlView) -> Rewrite {
        match url.host {
            Some(host) if regex_matches(self.host_regex@, host) => match host_written(
                is_special(url.scheme),
                self.replace@,
            ) {
                Some(new) => if with_host_in(url, new).host == Some(host) {
                    Rewrite::Keep
                } else if !host_fits(url, new) {
                    Rewrite::TooLong
                } else {
                    Rewrite::Replace(with_host_in(url, new))
                },
                None => Rewrite::Keep,
            },
            _ => Rewrite::Keep,
        }
    }

    fn rewrite_url(&self, url: &Url) -> (rewrite: UrlRewrite) {
        let host = match url.host_str() {
            Some(host) => host,
            None => return UrlRewrite::Keep,
        };
        if !self.host_regex.is_match(host.as_str()) {
            return UrlRewrite::Keep;
        }
        let written = match write_host(url.has_special_scheme(), self.replace.as_str()) {
            Some(written) => written,
            None => return UrlRewrite::Keep,
        };
        if !written.as_str().is_empty() && written == host {
            return UrlRewrite::Keep;
        }
        if !url.can_take_host(written.as_str()) {
            return UrlRewrite::TooLong;
        }
        match url.with_host(self.replace.as_str()) {
            Some(new) => UrlRewrite::Replace(new),
            None => UrlRewrite::Keep,
        }
    }
}

impl Rule for UrlHostReplaceRule {
    /// Every link with a matching host has the host of the rule afterwards, and the rest of it
    /// stays. Where that host is a plain domain, every URL that is put in the place of another one,
    /// in the text or in a link, has exactly that host. A second time, the rule skips an ordinary
    /// message, if it does not match its own host.
    fn apply(&self, text: &mut Vec<u16>, entities: &mut Vec<MessageEntity>) -> (effect: Effect)
        ensures
            links_have_the_host(
                *self,
                entity_views(old(entities)@),
                entity_views(final(entities)@),
            ),
            is_plain_domain(self.replace@) ==> puts_host(
                |url: UrlView| self.rewrite(url),
                old(text)@,
                entity_views(old(entities)@),
                self.replace@,
            ),
            self.is_final() && is_ordinary(
                |url: UrlView| self.rewrite(url),
                old(text)@,
                entity_views(old(entities)@),
            ) ==> rewritten(
                |url: UrlView| self.rewrite(url),
                final(text)@,
                entity_views(final(entities)@),
            ) == Some(
                Draft {
                    text: final(text)@,
                    entities: entity_views(final(entities)@),
                    effect: Effect::Skipped,
                },
            ),
    {
        let ghost before = (text@, entity_views(entities@));
        let effect = for_each_url_mut(text, entities, self);
        proof {
            lemma_replaced_links(*self, before.0, before.1);
            if is_plain_domain(self.replace@) {
                lemma_puts_host(*self, before.0, before.1);
            }
            if self.is_final() && is_ordinary(
                |url: UrlView| self.rewrite(url),
                before.0,
                before.1,
            ) {
                law_second_replacement_skips(*self, before.0, before.1);
            }
        }
        effect
    }

    fn try_apply(&self, text: &mut Vec<u16>, entities: &mut Vec<MessageEntity>) -> (effect: Option<
        Effect,
    >) {
        if can_visit_all(text, entities, self) {
            Some(self.apply(text, entities))
        } else {
            None
        }
    }
}

/// Removes selected query parameters from matching URLs.
pub struct UrlQueryExcludeRule {
    pub host_regex: Regex,
    pub exclude: KeySet,
}

/// The pairs whose names are not excluded, in their order.
pub open spec fn kept_pairs(
    pairs: Seq<(Seq<char>, Seq<char>)>,
    exclude: Set<Seq<char>>,
) -> Seq<(Seq<char>, Seq<char>)> {
    pairs.filter(|pair: (Seq<char>, Seq<char>)| !exclude.contains(pair.0))
}

/// Whether the name of a pair is excluded.
pub open spec fn has_excluded(
    pairs: Seq<(Seq<char>, Seq<char>)>,
    exclude: Set<Seq<char>>,
) -> bool {
    exists|i: int| 0 <= i < pairs.len() && exclude.contains((#[trigger] pairs[i]).0)
}

/// A query, which is missing where it is empty.
pub open spec fn query_or_none(query: Seq<char>) -> Option<Seq<char>> {
    if query.len() == 0 {
        None
    } else {
        Some(query)
    }
}

impl UrlQueryExcludeRule {
    /// Whether the rule is for a URL.
    pub open spec fn is_for(&self, url: UrlView) -> bool {
        url.host matches Some(host) && regex_matches(self.host_regex@, host)
    }

    /// The query of a URL whose host matches, without the excluded pairs; `None` where there are
    /// none, or the host does not match.
    pub open spec fn filtered(&self, url: UrlView) -> Option<Seq<char>> {
        if self.is_for(url) && has_excluded(pairs_of(url), self.exclude@) {
            Some(form_query(kept_pairs(pairs_of(url), self.exclude@)))
        } else {
            None
        }
    }

    /// The query without the excluded pairs; `None` where the URL should stay as it is.
    pub fn filter_or_none(&self, url: &Url) -> (query: Option<String>)
        ensures
            optional_chars(query) == self.filtered(url@),
    {
        let host = match url.host_str() {
            Some(host) => host,
            None => return None,
        };
        if !self.host_regex.is_match(host.as_str()) {
            return None;
        }
        match without_excluded(url.query_pairs(), &self.exclude) {
            Some(kept) => Some(write_query(&kept)),
            None => None,
        }
    }
}

/// Drops the pairs with excluded names; `None` where there are none.
pub fn without_excluded(pairs: Vec<(String, String)>, exclude: &KeySet) -> (kept: Option<
    Vec<(String, String)>,
>)
    ensures
        kept is Some <==> has_excluded(pair_chars(pairs@), exclude@),
        kept matches Some(kept) ==> pair_chars(kept@) == kept_pairs(pair_chars(pairs@), exclude@),
{
    let mut has_exclusions = false;
    let mut kept: Vec<(String, String)> = Vec::new();
    let ghost all = pair_chars(pairs@);
    let mut i: usize = 0;
    proof {
        reveal(Seq::filter);
        assert(kept_pairs(all.take(0), exclude@) == pair_chars(kept@));
    }
    while i < pairs.len()
        invariant
            i <= pairs@.len(),
            all == pair_chars(pairs@),
            pair_chars(kept@) == kept_pairs(all.take(i as int), exclude@),
            has_exclusions == exists|k: int| 0 <= k < i && exclude@.contains((#[trigger] all[k]).0),
        decreases pairs@.len() - i,
    {
        let ghost before = all.take(i as int);
        let ghost after = all.take(i + 1);
        proof {
            reveal(Seq::filter);
            assert(after.drop_last() == before);
            assert(after.last() == all[i as int]);
        }
        if exclude.contains(pairs[i].0.as_str()) {
            has_exclusions = true;
        } else {
            let ghost earlier = kept@;
            kept.push((pairs[i].0.clone(), pairs[i].1.clone()));
            proof {
                assert(pair_chars(kept@) == pair_chars(earlier).push(all[i as int]));
            }
        }
        i += 1;
    }
    proof {
        assert(all.take(i as int) == all);
    }
    if has_exclusions {
        Some(kept)
    } else {
        None
    }
}

impl UrlRewriter for UrlQueryExcludeRule {
    /// A URL with excluded pairs gets the query of the others, and none where none are left.
    open spec fn rewrite(&self, url: UrlView) -> Rewrite {
        match self.filtered(url) {
            Some(query) => if !query_fits(url, query_or_none(query)) {
                Rewrite::TooLong
            } else {
                Rewrite::Replace(with_query_in(url, query_or_none(query)))
            },
            None => Rewrite::Keep,
        }
    }

    fn rewrite_url(&self, url: &Url) -> (rewrite: UrlRewrite) {
        let filtered = match self.filter_or_none(url) {
            Some(query) => query,
            None => return UrlRewrite::Keep,
        };
        let query = if filtered.as_str().is_empty() {
            None
        } else {
            Some(filtered.as_str())
        };
        if !url.can_take_query(query) {
            return UrlRewrite::TooLong;
        }
        proof {
            law_written_query_is_read_back(kept_pairs(pairs_of(url@), self.exclude@));
        }
        UrlRewrite::Replace(url.with_query(query))
    }
}

impl Rule for UrlQueryExcludeRule {
    /// No link with a matching host has an excluded parameter afterwards; its other parameters
    /// stay in their order, and so does the rest of it. A second time, the rule skips an ordinary
    /// message.
    fn apply(&self, text: &mut Vec<u16>, entities: &mut Vec<MessageEntity>) -> (effect: Effect)
        ensures
            links_are_excluded(
                *self,
                entity_views(old(entities)@),
                entity_views(final(entities)@),
            ),
            is_ordinary(
                |url: UrlView| self.rewrite(url),
                old(text)@,
                entity_views(old(entities)@),
            ) ==> rewritten(
                |url: UrlView| self.rewrite(url),
                final(text)@,
                entity_views(final(entities)@),
            ) == Some(
                Draft {
                    text: final(text)@,
                    entities: entity_views(final(entities)@),
                    effect: Effect::Skipped,
                },
            ),
    {
        let ghost before = (text@, entity_views(entities@));
        let effect = for_each_url_mut(text, entities, self);
        proof {
            lemma_excluded_links(*self, before.0, before.1);
            if is_ordinary(|url: UrlView| self.rewrite(url), before.0, before.1) {
                law_second_exclusion_skips(*self, before.0, before.1);
            }
        }
        effect
    }

    fn try_apply(&self, text: &mut Vec<u16>, entities: &mut Vec<MessageEntity>) -> (effect: Option<
        Effect,
    >) {
        if can_visit_all(text, entities, self) {
            Some(self.apply(text, entities))
        } else {
            None
        }
    }
}

} // verus!
