//! How the text of a message is made up of what its entities mark and of what lies between, and
//! what follows for rules that are applied one after the other.

use vstd::prelude::*;

use crate::address::{pairs_of, parsed_with_default_scheme, ParseError, UrlView};
use crate::entity::EntityView;
use crate::formatter::laws::{
    end_of, is_mutated_at, is_tidy, kind_after, law_effect_tells_of_rewriting,
    law_entities_keep_their_kinds, law_tidy_entities_stay_tidy, lemma_none_too_long, lemma_put_at,
    lemma_tidy_in_step, Walk,
};
use crate::formatter::rule::{has_excluded, kept_pairs, UrlQueryExcludeRule};
use crate::formatter::rule_laws::{law_excluded_parameters_are_gone, lemma_kept_pairs, url_after};
use crate::formatter::walk::{
    decision, rewritten, step, url_in, url_of, walked, Draft, Effect, UrlRewriter,
};
use crate::text::{law_utf16_round_trip, utf16};

verus! {

/// Where the first `count` entities end.
spec fn last_end(entities: Seq<EntityView>, count: nat) -> int {
    if count == 0 {
        0
    } else {
        end_of(entities[count - 1])
    }
}

/// The text up to the end of the first `count` entities, with other pieces in the place of what
/// they mark.
spec fn assembled(
    text: Seq<u16>,
    entities: Seq<EntityView>,
    pieces: Seq<Seq<u16>>,
    count: nat,
) -> Seq<u16>
    decreases count,
{
    if count == 0 {
        Seq::empty()
    } else {
        let k = count - 1;
        assembled(text, entities, pieces, k as nat) + text.subrange(
            last_end(entities, k as nat),
            entities[k].offset as int,
        ) + pieces[k]
    }
}

/// The text with other pieces in the place of what the entities mark.
spec fn laid_out(text: Seq<u16>, entities: Seq<EntityView>, pieces: Seq<Seq<u16>>) -> Seq<u16> {
    assembled(text, entities, pieces, entities.len()) + text.skip(
        last_end(entities, entities.len()),
    )
}

/// Where a piece starts in the text.
spec fn piece_start(
    text: Seq<u16>,
    entities: Seq<EntityView>,
    pieces: Seq<Seq<u16>>,
    i: int,
) -> int {
    assembled(text, entities, pieces, i as nat).len() + entities[i].offset - last_end(
        entities,
        i as nat,
    )
}

/// What an entity marks after a walk.
spec fn piece_of(walk: Walk, i: int) -> Seq<u16> {
    match walk.replacement(i) {
        Some(new) => utf16(new.text),
        None => walk.text.subrange(walk.entities[i].offset as int, end_of(walk.entities[i])),
    }
}

spec fn pieces_of(walk: Walk) -> Seq<Seq<u16>> {
    Seq::new(walk.entities.len(), |i: int| piece_of(walk, i))
}

spec fn is_laid_out(walk: Walk, count: nat, draft: Draft) -> bool {
    let done = assembled(walk.text, walk.entities, pieces_of(walk), count);
    let cut = last_end(walk.entities, count);
    &&& draft.text == done + walk.text.skip(cut)
    &&& draft.entities.len() == walk.entities.len()
    &&& forall|i: int|
        0 <= i < count ==> {
            &&& (#[trigger] draft.entities[i]).offset == piece_start(
                walk.text,
                walk.entities,
                pieces_of(walk),
                i,
            )
            &&& draft.entities[i].length == piece_of(walk, i).len()
        }
    &&& forall|i: int|
        count <= i < draft.entities.len() ==> {
            &&& (#[trigger] draft.entities[i]).offset == walk.entities[i].offset + done.len() - cut
            &&& draft.entities[i].length == walk.entities[i].length
            &&& draft.entities[i].kind == walk.entities[i].kind
        }
}

#[verifier::rlimit(80)]
proof fn lemma_laid_out(walk: Walk, count: nat)
    requires
        is_tidy(walk.text, walk.entities),
        walk.is_indexable(),
        count <= walk.entities.len(),
        walk.after(count) is Some,
    ensures
        is_laid_out(walk, count, walk.after(count)->0),
    decreases count,
{
    let pieces = pieces_of(walk);
    if count == 0 {
        assert(walk.text.skip(0) =~= walk.text);
        assert(assembled(walk.text, walk.entities, pieces, 0) + walk.text =~= walk.text);
    } else {
        let k = (count - 1) as nat;
        lemma_laid_out(walk, k);
        let prior = walk.after(k)->0;
        let next = walk.after(count)->0;
        assert(step(walk.rewrite, prior, k as int) == Some(next));
        assert(walked(walk.rewrite, walk.text, walk.entities, count) is Some);
        assert(next.text.len() <= usize::MAX);
        let entity = walk.entities[k as int];
        let done = assembled(walk.text, walk.entities, pieces, k);
        let cut = last_end(walk.entities, k);
        let gap = walk.text.subrange(cut, entity.offset as int);
        let here = prior.entities[k as int];
        assert(end_of(entity) <= walk.text.len());
        assert(cut <= entity.offset) by {
            if k > 0 {
                assert(end_of(walk.entities[k - 1]) <= walk.entities[k as int].offset);
            }
        }
        let start = here.offset as int;
        let end = end_of(here);
        let marked = walk.text.subrange(entity.offset as int, end_of(entity));
        assert(start == done.len() + gap.len());
        assert(prior.text.subrange(start, end) =~= marked);
        assert(decision(walk.rewrite, prior.text, here) == decision(
            walk.rewrite,
            walk.text,
            entity,
        ));
        let longer = assembled(walk.text, walk.entities, pieces, count);
        assert(longer == done + gap + piece_of(walk, k as int));
        assert(prior.text.subrange(0, start) =~= done + gap);
        assert(prior.text.subrange(end, prior.text.len() as int) =~= walk.text.skip(
            end_of(entity),
        ));
        if walk.replacement(k as int) is None {
            assert(next.text == prior.text);
            assert(next.text =~= longer + walk.text.skip(end_of(entity)));
        } else {
            assert(next.text =~= longer + walk.text.skip(end_of(entity)));
        }
        assert forall|i: int| count <= i < next.entities.len() implies (
        #[trigger] next.entities[i]).offset == walk.entities[i].offset + longer.len() - end_of(
            entity,
        ) by {
            assert(end_of(walk.entities[k as int]) <= walk.entities[i].offset);
            assert(end_of(walk.entities[i]) <= walk.text.len());
            assert(prior.entities[i].offset == walk.entities[i].offset + done.len() - cut);
        }
        assert forall|i: int| 0 <= i < k implies #[trigger] next.entities[i]
            == prior.entities[i] by {}
    }
}

/// Other pieces in the place of pieces: only the last ones remain.
proof fn lemma_laid_out_again(
    text: Seq<u16>,
    entities: Seq<EntityView>,
    first: Seq<Seq<u16>>,
    placed: Seq<EntityView>,
    second: Seq<Seq<u16>>,
    count: nat,
)
    requires
        is_tidy(text, entities),
        first.len() == entities.len(),
        placed.len() == entities.len(),
        count <= entities.len(),
        forall|i: int|
            0 <= i < entities.len() ==> {
                &&& (#[trigger] placed[i]).offset == piece_start(text, entities, first, i)
                &&& placed[i].length == first[i].len()
            },
    ensures
        assembled(laid_out(text, entities, first), placed, second, count) == assembled(
            text,
            entities,
            second,
            count,
        ),
        last_end(placed, count) == assembled(text, entities, first, count).len(),
    decreases count,
{
    if count > 0 {
        let k = (count - 1) as nat;
        lemma_laid_out_again(text, entities, first, placed, second, k);
        let whole = laid_out(text, entities, first);
        let done = assembled(text, entities, first, k);
        let cut = last_end(entities, k);
        let gap = text.subrange(cut, entities[k as int].offset as int);
        assert(end_of(entities[k as int]) <= text.len());
        assert(cut <= entities[k as int].offset) by {
            if k > 0 {
                assert(end_of(entities[k - 1]) <= entities[k as int].offset);
            }
        }
        assert(placed[k as int].offset == piece_start(text, entities, first, k as int));
        lemma_assembled_prefix(text, entities, first, count);
        assert(assembled(text, entities, first, count) == done + gap + first[k as int]);
        let longer = assembled(text, entities, first, count);
        assert(whole.subrange(0, longer.len() as int) == longer);
        assert forall|q: int| 0 <= q < gap.len() implies whole[done.len() + q] == gap[q] by {
            assert(whole[done.len() + q] == longer[done.len() + q]);
        }
        assert(whole.subrange(done.len() as int, placed[k as int].offset as int) =~= gap);
    }
}

proof fn lemma_assembled_prefix(
    text: Seq<u16>,
    entities: Seq<EntityView>,
    pieces: Seq<Seq<u16>>,
    count: nat,
)
    requires
        count <= entities.len(),
    ensures
        assembled(text, entities, pieces, count).is_prefix_of(laid_out(text, entities, pieces)),
    decreases entities.len() - count,
{
    if count < entities.len() {
        lemma_assembled_prefix(text, entities, pieces, count + 1);
        let short = assembled(text, entities, pieces, count);
        let long = assembled(text, entities, pieces, count + 1);
        assert(short.is_prefix_of(long));
    }
}

/// Dropping some names and then others drops both.
pub proof fn law_kept_pairs_compose(
    pairs: Seq<(Seq<char>, Seq<char>)>,
    a: Set<Seq<char>>,
    b: Set<Seq<char>>,
)
    ensures
        kept_pairs(kept_pairs(pairs, a), b) == kept_pairs(pairs, a.union(b)),
        has_excluded(pairs, a.union(b)) <==> has_excluded(pairs, a) || has_excluded(
            kept_pairs(pairs, a),
            b,
        ),
    decreases pairs.len(),
{
    reveal(Seq::filter);
    if pairs.len() > 0 {
        let shorter = pairs.drop_last();
        let last = pairs.last();
        law_kept_pairs_compose(shorter, a, b);
        let kept = kept_pairs(shorter, a);
        if !a.contains(last.0) {
            assert(kept.push(last).drop_last() =~= kept);
        }
        lemma_has_excluded_push(shorter, last, a.union(b));
        lemma_has_excluded_push(shorter, last, a);
        assert(shorter.push(last) =~= pairs);
        if !a.contains(last.0) {
            lemma_has_excluded_push(kept, last, b);
        }
    }
}

proof fn lemma_has_excluded_push(
    pairs: Seq<(Seq<char>, Seq<char>)>,
    pair: (Seq<char>, Seq<char>),
    exclude: Set<Seq<char>>,
)
    ensures
        has_excluded(pairs.push(pair), exclude) <==> has_excluded(pairs, exclude)
            || exclude.contains(pair.0),
{
    let longer = pairs.push(pair);
    if has_excluded(pairs, exclude) {
        let i = choose|i: int| 0 <= i < pairs.len() && exclude.contains((#[trigger] pairs[i]).0);
        assert(exclude.contains(longer[i].0));
    }
    if exclude.contains(pair.0) {
        assert(exclude.contains(longer[pairs.len() as int].0));
    }
    if has_excluded(longer, exclude) {
        let i = choose|i: int| 0 <= i < longer.len() && exclude.contains((#[trigger] longer[i]).0);
        if i < pairs.len() {
            assert(exclude.contains(pairs[i].0));
        }
    }
}

/// Whether a rule excludes what two others with the same hosts exclude.
pub open spec fn excludes_both(
    a: UrlQueryExcludeRule,
    b: UrlQueryExcludeRule,
    c: UrlQueryExcludeRule,
) -> bool {
    &&& a.host_regex@ == c.host_regex@
    &&& b.host_regex@ == c.host_regex@
    &&& c.exclude@ == a.exclude@.union(b.exclude@)
}

/// Excluding some parameters of a URL and then others is the same as excluding both.
pub proof fn law_exclusions_compose_on_a_url(
    a: UrlQueryExcludeRule,
    b: UrlQueryExcludeRule,
    c: UrlQueryExcludeRule,
    url: UrlView,
)
    requires
        excludes_both(a, b, c),
        !(a.rewrite(url) is TooLong),
        !(b.rewrite(url_after(a.rewrite(url), url)) is TooLong),
        !(c.rewrite(url) is TooLong),
    ensures
        ({
            let between = url_after(a.rewrite(url), url);
            &&& url_after(b.rewrite(between), between) == url_after(c.rewrite(url), url)
            &&& c.rewrite(url) is Replace <==> a.rewrite(url) is Replace || b.rewrite(
                between,
            ) is Replace
        }),
{
    let between = url_after(a.rewrite(url), url);
    let pairs = pairs_of(url);
    law_excluded_parameters_are_gone(a, url);
    law_kept_pairs_compose(pairs, a.exclude@, b.exclude@);
    lemma_kept_pairs(pairs, a.exclude@);
    lemma_kept_pairs(kept_pairs(pairs, a.exclude@), b.exclude@);
    if c.is_for(url) {
        assert(pairs_of(between) == kept_pairs(pairs, a.exclude@));
    }
    if a.rewrite(url) is Replace && b.rewrite(between) is Replace {
        let last = url_after(b.rewrite(between), between);
        let whole = url_after(c.rewrite(url), url);
        assert(last.text =~= whole.text);
    }
}

/// Whether what a rule puts in the place of the URLs in a text is not empty, and is read as it is.
pub open spec fn is_legible(walk: Walk) -> bool {
    forall|i: int|
        0 <= i < walk.entities.len() && (#[trigger] walk.replacement(i)) is Some ==> {
            let new = walk.replacement(i)->0;
            &&& new.text.len() > 0
            &&& parsed_with_default_scheme(new.text) == Ok::<UrlView, ParseError>(new)
        }
}

/// Two rules that exclude parameters of the URLs of the same hosts, applied to a tidy message one
/// after the other, make of it what one rule makes of it that excludes what either excludes; and
/// it rewrites a URL exactly where one of them does.
pub proof fn law_exclusions_compose(
    a: UrlQueryExcludeRule,
    b: UrlQueryExcludeRule,
    c: UrlQueryExcludeRule,
    text: Seq<u16>,
    entities: Seq<EntityView>,
)
    requires
        excludes_both(a, b, c),
        is_tidy(text, entities),
        ({
            let first = Walk { rewrite: |url: UrlView| a.rewrite(url), text, entities };
            let both = Walk { rewrite: |url: UrlView| c.rewrite(url), text, entities };
            &&& first.is_indexable()
            &&& both.is_indexable()
            &&& first.result() is Some
            &&& both.result() is Some
            &&& is_legible(first)
            &&& ({
                let second = Walk {
                    rewrite: |url: UrlView| b.rewrite(url),
                    text: first.result()->0.text,
                    entities: first.result()->0.entities,
                };
                &&& second.is_indexable()
                &&& second.result() is Some
            })
        }),
    ensures
        rewritten(|url: UrlView| a.rewrite(url), text, entities) matches Some(between)
            && rewritten(|url: UrlView| b.rewrite(url), between.text, between.entities) matches Some(
            last,
        ) && rewritten(|url: UrlView| c.rewrite(url), text, entities) matches Some(whole) && {
            &&& last.text == whole.text
            &&& last.entities == whole.entities
            &&& whole.effect == Effect::Mutated <==> between.effect == Effect::Mutated
                || last.effect == Effect::Mutated
        },
{
    let first = Walk { rewrite: |url: UrlView| a.rewrite(url), text, entities };
    let both = Walk { rewrite: |url: UrlView| c.rewrite(url), text, entities };
    let between = first.result()->0;
    let second = Walk {
        rewrite: |url: UrlView| b.rewrite(url),
        text: between.text,
        entities: between.entities,
    };
    law_tidy_entities_stay_tidy(first);
    lemma_laid_out(first, entities.len());
    assert forall|i: int| 0 <= i < entities.len() implies #[trigger] compose_at(
        first,
        second,
        both,
        i,
    ) by {
        lemma_exclusions_compose_at(a, b, c, first, second, both, i);
    }
    lemma_same_layout(first, second, both);
    lemma_same_effect(first, second, both);
}

/// Whether two walks one after the other make of an entity what another walk makes of it.
spec fn compose_at(first: Walk, second: Walk, both: Walk, i: int) -> bool {
    &&& piece_of(second, i) == piece_of(both, i)
    &&& second.result()->0.entities[i].kind == both.result()->0.entities[i].kind
    &&& is_mutated_at(both, i) <==> is_mutated_at(first, i) || is_mutated_at(second, i)
}

#[verifier::rlimit(60)]
proof fn lemma_same_layout(first: Walk, second: Walk, both: Walk)
    requires
        both.text == first.text,
        both.entities == first.entities,
        is_tidy(first.text, first.entities),
        is_tidy(second.text, second.entities),
        second.is_indexable(),
        both.is_indexable(),
        second.result() is Some,
        both.result() is Some,
        second.text == first.result()->0.text,
        second.entities == first.result()->0.entities,
        is_laid_out(first, first.entities.len(), first.result()->0),
        forall|i: int|
            0 <= i < first.entities.len() ==> #[trigger] compose_at(first, second, both, i),
    ensures
        second.result()->0.text == both.result()->0.text,
        second.result()->0.entities == both.result()->0.entities,
{
    let last = second.result()->0;
    let whole = both.result()->0;
    let text = first.text;
    let entities = first.entities;
    let count = entities.len();
    let pieces = pieces_of(second);
    lemma_laid_out(second, count);
    lemma_laid_out(both, count);
    assert(pieces =~= pieces_of(both)) by {
        assert forall|i: int| 0 <= i < count implies pieces[i] == pieces_of(both)[i] by {
            assert(compose_at(first, second, both, i));
        }
    }
    lemma_laid_out_again(text, entities, pieces_of(first), second.entities, pieces, count);
    let done = assembled(text, entities, pieces_of(first), count);
    assert(second.text.skip(last_end(second.entities, count)) =~= text.skip(
        last_end(entities, count),
    )) by {
        assert(second.text == done + text.skip(last_end(entities, count)));
    }
    assert(last.text == whole.text);
    assert forall|i: int| 0 <= i < count implies last.entities[i] == whole.entities[i] by {
        assert(compose_at(first, second, both, i));
        lemma_laid_out_again(text, entities, pieces_of(first), second.entities, pieces, i as nat);
        assert(last.entities[i].offset == piece_start(second.text, second.entities, pieces, i));
        assert(whole.entities[i].offset == piece_start(text, entities, pieces, i));
        assert(second.entities[i].offset == piece_start(text, entities, pieces_of(first), i));
        assert(last.entities[i].length == whole.entities[i].length);
    }
    assert(last.entities =~= whole.entities);
}

proof fn lemma_same_effect(first: Walk, second: Walk, both: Walk)
    requires
        both.entities.len() == first.entities.len(),
        second.entities.len() == first.entities.len(),
        first.result() is Some,
        second.result() is Some,
        both.result() is Some,
        forall|i: int|
            0 <= i < first.entities.len() ==> #[trigger] compose_at(first, second, both, i),
    ensures
        both.result()->0.effect == Effect::Mutated <==> first.result()->0.effect == Effect::Mutated
            || second.result()->0.effect == Effect::Mutated,
{
    let count = first.entities.len();
    law_effect_tells_of_rewriting(first);
    law_effect_tells_of_rewriting(second);
    law_effect_tells_of_rewriting(both);
    if exists|i: int| 0 <= i < count && #[trigger] is_mutated_at(both, i) {
        let i = choose|i: int| 0 <= i < count && #[trigger] is_mutated_at(both, i);
        assert(compose_at(first, second, both, i));
    }
    if exists|i: int| 0 <= i < count && #[trigger] is_mutated_at(first, i) {
        let i = choose|i: int| 0 <= i < count && #[trigger] is_mutated_at(first, i);
        assert(compose_at(first, second, both, i));
    }
    if exists|i: int| 0 <= i < count && #[trigger] is_mutated_at(second, i) {
        let i = choose|i: int| 0 <= i < count && #[trigger] is_mutated_at(second, i);
        assert(compose_at(first, second, both, i));
    }
}

#[verifier::rlimit(60)]
proof fn lemma_exclusions_compose_at(
    a: UrlQueryExcludeRule,
    b: UrlQueryExcludeRule,
    c: UrlQueryExcludeRule,
    first: Walk,
    second: Walk,
    both: Walk,
    i: int,
)
    requires
        excludes_both(a, b, c),
        first.rewrite == (|url: UrlView| a.rewrite(url)),
        second.rewrite == (|url: UrlView| b.rewrite(url)),
        both.rewrite == (|url: UrlView| c.rewrite(url)),
        both.text == first.text,
        both.entities == first.entities,
        is_tidy(first.text, first.entities),
        is_tidy(second.text, second.entities),
        first.is_indexable(),
        second.is_indexable(),
        both.is_indexable(),
        first.result() is Some,
        second.result() is Some,
        both.result() is Some,
        is_legible(first),
        second.text == first.result()->0.text,
        second.entities == first.result()->0.entities,
        is_laid_out(first, first.entities.len(), first.result()->0),
        0 <= i < first.entities.len(),
    ensures
        piece_of(second, i) == piece_of(both, i),
        second.result()->0.entities[i].kind == both.result()->0.entities[i].kind,
        is_mutated_at(both, i) <==> is_mutated_at(first, i) || is_mutated_at(second, i),
{
    lemma_tidy_in_step(first);
    lemma_tidy_in_step(second);
    lemma_tidy_in_step(both);
    law_entities_keep_their_kinds(first);
    law_entities_keep_their_kinds(second);
    law_entities_keep_their_kinds(both);
    lemma_none_too_long(first, i);
    lemma_none_too_long(second, i);
    lemma_none_too_long(both, i);
    lemma_put_at(first, i);
    lemma_put_at(second, i);
    lemma_put_at(both, i);
    let entity = first.entities[i];
    let placed = second.entities[i];
    let piece = piece_of(first, i);
    assert(placed.kind == kind_after(first.rewrite, entity.kind));
    assert(end_of(entity) <= first.text.len());
    assert(second.text.subrange(placed.offset as int, end_of(placed)) == piece) by {
        let pieces = pieces_of(first);
        lemma_assembled_prefix(first.text, first.entities, pieces, (i + 1) as nat);
        let longer = assembled(first.text, first.entities, pieces, (i + 1) as nat);
        assert(pieces[i] == piece);
        assert(last_end(first.entities, i as nat) <= entity.offset) by {
            if i > 0 {
                assert(end_of(first.entities[i - 1]) <= first.entities[i].offset);
            }
        }
        assert(end_of(placed) == longer.len());
        assert(second.text.subrange(placed.offset as int, end_of(placed)) =~= longer.subrange(
            placed.offset as int,
            end_of(placed),
        ));
        assert(longer.subrange(placed.offset as int, end_of(placed)) =~= piece);
    }
    match url_of(first.text, entity) {
        Some(url) => {
            let between = url_after(a.rewrite(url), url);
            assert(decision(first.rewrite, first.text, entity) == a.rewrite(url));
            if entity.kind is Url {
                if first.replacement(i) is Some {
                    law_utf16_round_trip(between.text);
                    assert(piece.len() > 0);
                }
                assert(url_in(second.text, placed.offset as int, end_of(placed)) == Some(between));
            }
            assert(url_of(second.text, placed) == Some(between));
            law_exclusions_compose_on_a_url(a, b, c, url);
        },
        None => {
            assert(url_of(second.text, placed) is None);
        },
    }
}

} // verus!
