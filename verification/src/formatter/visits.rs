//! What one visit of a walk does to a message, whatever was done before it.

use vstd::prelude::*;

use crate::address::{parsed_with_default_scheme, ParseError, UrlView};
use crate::entity::{EntityView, KindView};
use crate::formatter::laws::{
    end_of, is_mutated_at, is_short_enough, law_effect_tells_of_rewriting,
    law_entities_follow_the_text, law_entities_keep_their_kinds, law_walk_succeeds, lemma_kinds,
    lemma_links_are_short, lemma_put_at, Walk,
};
use crate::formatter::walk::{
    decision, lemma_walked_prefix, moved, rewritten, shifted, spliced, step, walked, Draft, Effect, Rewrite,
};
use crate::text::{utf16, utf16_lossy};

verus! {

/// A text with a part replaced is what was before that part, what takes its place, and what was
/// after it.
pub proof fn law_part_is_replaced(
    before: Seq<u16>,
    part: Seq<u16>,
    after: Seq<u16>,
    units: Seq<u16>,
)
    ensures
        spliced(
            before + part + after,
            before.len() as int,
            (before.len() + part.len()) as int,
            units,
        ) == before + units + after,
{
    let whole = before + part + after;
    let start = before.len() as int;
    let end = (before.len() + part.len()) as int;
    assert(whole.subrange(0, start) =~= before);
    assert(whole.subrange(end, whole.len() as int) =~= after);
}

/// An offset up to the start of a replaced part stays, and one from its end on keeps its distance
/// from the end of the text. Offsets keep their order, and none goes before the start of the part.
pub proof fn law_offsets_move_with_the_text(
    offset: usize,
    other: usize,
    start: int,
    end: int,
    length: nat,
)
    requires
        0 <= start <= end,
    ensures
        offset <= start ==> moved(offset, start, end, length) == offset,
        end <= offset && start < offset && offset + length - (end - start) <= usize::MAX ==> moved(
            offset,
            start,
            end,
            length,
        ) == offset + length - (end - start),
        start < offset ==> start <= moved(offset, start, end, length),
        start < offset && start <= offset + length - (end - start) <= usize::MAX ==> moved(
            offset,
            start,
            end,
            length,
        ) == offset + length - (end - start),
        start < offset && offset + length - (end - start) < start ==> moved(
            offset,
            start,
            end,
            length,
        ) == start,
        start < offset && offset + length - (end - start) > usize::MAX ==> moved(
            offset,
            start,
            end,
            length,
        ) == usize::MAX,
        offset <= other ==> moved(offset, start, end, length) <= moved(other, start, end, length),
{
}

/// The entity of a replaced part marks what took its place; those before it in the list stay, and
/// of those after it only the offset is changed, which moves with the text.
pub proof fn law_marks_move_with_the_text(entities: Seq<EntityView>, k: int, length: nat, i: int)
    requires
        0 <= k < entities.len(),
        0 <= i < entities.len(),
        length <= usize::MAX,
    ensures
        shifted(entities, k, length).len() == entities.len(),
        shifted(entities, k, length)[i].kind == entities[i].kind,
        i < k ==> shifted(entities, k, length)[i] == entities[i],
        i == k ==> shifted(entities, k, length)[i].offset == entities[i].offset,
        i == k ==> shifted(entities, k, length)[i].length == length,
        i > k ==> shifted(entities, k, length)[i].length == entities[i].length,
        i > k && entities[i].offset <= entities[k].offset ==> shifted(
            entities,
            k,
            length,
        )[i].offset == entities[i].offset,
        i > k && entities[k].offset < entities[i].offset && entities[k].offset <= entities[i].offset
            + length - entities[k].length <= usize::MAX ==> shifted(entities, k, length)[i].offset
            == entities[i].offset + length - entities[k].length,
        i > k && entities[k].offset < entities[i].offset && entities[i].offset + length
            - entities[k].length < entities[k].offset ==> shifted(entities, k, length)[i].offset
            == entities[k].offset,
{
}

/// The visit of an entity that marks a text which is read as a URL does what is decided for that
/// URL: another one is written in its place, and marked; or nothing is done; or the visit fails.
pub proof fn law_marked_url_is_visited(
    rewrite: spec_fn(UrlView) -> Rewrite,
    draft: Draft,
    k: int,
    url: UrlView,
)
    requires
        0 <= k < draft.entities.len(),
        draft.entities[k].kind is Url,
        0 < draft.entities[k].length,
        draft.entities[k].offset + draft.entities[k].length <= draft.text.len(),
        parsed_with_default_scheme(
            utf16_lossy(
                draft.text.subrange(
                    draft.entities[k].offset as int,
                    draft.entities[k].offset + draft.entities[k].length,
                ),
            ),
        ) == Ok::<UrlView, ParseError>(url),
    ensures
        rewrite(url) matches Rewrite::Replace(new) ==> (step(rewrite, draft, k) matches Some(next)
            && {
            let start = draft.entities[k].offset as int;
            let end = start + draft.entities[k].length;
            &&& next.text == draft.text.take(start) + utf16(new.text) + draft.text.skip(end)
            &&& next.entities == shifted(draft.entities, k, utf16(new.text).len())
            &&& next.effect == Effect::Mutated
        }),
        rewrite(url) is Keep ==> step(rewrite, draft, k) == Some(draft),
        rewrite(url) is TooLong ==> step(rewrite, draft, k) is None,
{
    let start = draft.entities[k].offset as int;
    let end = start + draft.entities[k].length;
    assert(draft.text.subrange(0, start) =~= draft.text.take(start));
    assert(draft.text.subrange(end, draft.text.len() as int) =~= draft.text.skip(end));
}

/// The visit of an entity that marks something else than a URL in the text: a text that is not
/// read as one, or an empty one, is left as it is; and where the entity is not within the text,
/// the visit fails.
pub proof fn law_marked_text_is_visited(
    rewrite: spec_fn(UrlView) -> Rewrite,
    draft: Draft,
    k: int,
)
    requires
        0 <= k < draft.entities.len(),
        draft.entities[k].kind is Url,
    ensures
        ({
            let start = draft.entities[k].offset as int;
            let end = start + draft.entities[k].length;
            &&& end > draft.text.len() ==> step(rewrite, draft, k) is None
            &&& end <= draft.text.len() && (start == end || parsed_with_default_scheme(
                utf16_lossy(draft.text.subrange(start, end)),
            ) is Err) ==> step(rewrite, draft, k) == Some(draft)
        }),
{
}

/// The visit of an entity of another kind leaves the text as it is. The URL of a link is replaced
/// in the entity where that is decided for it, and nothing else is changed.
pub proof fn law_other_entity_is_visited(
    rewrite: spec_fn(UrlView) -> Rewrite,
    draft: Draft,
    k: int,
)
    requires
        0 <= k < draft.entities.len(),
        !(draft.entities[k].kind is Url),
    ensures
        !(draft.entities[k].kind is TextLink) ==> step(rewrite, draft, k) == Some(draft),
        draft.entities[k].kind matches KindView::TextLink { url } ==> {
            &&& rewrite(url) is Keep ==> step(rewrite, draft, k) == Some(draft)
            &&& rewrite(url) is TooLong ==> step(rewrite, draft, k) is None
            &&& rewrite(url) matches Rewrite::Replace(new) ==> (step(
                rewrite,
                draft,
                k,
            ) matches Some(next) && {
                &&& next.text == draft.text
                &&& next.effect == Effect::Mutated
                &&& next.entities.len() == draft.entities.len()
                &&& next.entities[k].kind == (KindView::TextLink { url: new })
                &&& next.entities[k].offset == draft.entities[k].offset
                &&& next.entities[k].length == draft.entities[k].length
                &&& forall|i: int|
                    0 <= i < draft.entities.len() && i != k ==> #[trigger] next.entities[i]
                        == draft.entities[i]
            })
        },
{
}

/// A walk starts with the message as it is, visits every entity once, in the order of the list, and
/// fails where a visit fails.
pub proof fn law_walk_visits_in_turn(
    rewrite: spec_fn(UrlView) -> Rewrite,
    text: Seq<u16>,
    entities: Seq<EntityView>,
    k: nat,
)
    ensures
        walked(rewrite, text, entities, 0) == Some(
            Draft { text, entities, effect: Effect::Skipped },
        ),
        walked(rewrite, text, entities, (k + 1) as nat) == (match walked(
            rewrite,
            text,
            entities,
            k,
        ) {
            Some(draft) => step(rewrite, draft, k as int),
            None => None,
        }),
        rewritten(rewrite, text, entities) == walked(rewrite, text, entities, entities.len()),
{
}

/// Every URL that is marked in the text is decided on. Where it is replaced, the new URL is marked
/// after the walk; where it is kept, its text is.
pub proof fn law_marked_urls_are_rewritten(walk: Walk, i: int, url: UrlView)
    requires
        walk.in_step(),
        walk.is_indexable(),
        walk.result() is Some,
        0 <= i < walk.entities.len(),
        walk.is_clear(i, walk.entities.len()),
        walk.entities[i].kind is Url,
        0 < walk.entities[i].length,
        walk.entities[i].offset + walk.entities[i].length <= walk.text.len(),
        parsed_with_default_scheme(
            utf16_lossy(
                walk.text.subrange(
                    walk.entities[i].offset as int,
                    walk.entities[i].offset + walk.entities[i].length,
                ),
            ),
        ) == Ok::<UrlView, ParseError>(url),
    ensures
        decision(walk.rewrite, walk.text, walk.entities[i]) == (walk.rewrite)(url),
        ({
            let draft = walk.result()->0;
            let entity = draft.entities[i];
            let marked = draft.text.subrange(
                entity.offset as int,
                entity.offset + entity.length,
            );
            &&& entity.kind is Url
            &&& entity.offset + entity.length <= draft.text.len()
            &&& (walk.rewrite)(url) matches Rewrite::Replace(new) ==> {
                &&& marked == utf16(new.text)
                &&& draft.effect == Effect::Mutated
            }
            &&& (walk.rewrite)(url) is Keep ==> marked == walk.text.subrange(
                walk.entities[i].offset as int,
                walk.entities[i].offset + walk.entities[i].length,
            )
        }),
{
    law_entities_follow_the_text(walk, i);
    law_entities_keep_their_kinds(walk);
    law_effect_tells_of_rewriting(walk);
    lemma_put_at(walk, i);
}

/// Every link is decided on. Where its URL is replaced, the entity holds the new one after the
/// walk; where it is kept, it holds the one that it held.
pub proof fn law_links_are_rewritten(walk: Walk, i: int, url: UrlView)
    requires
        walk.result() is Some,
        0 <= i < walk.entities.len(),
        walk.entities[i].kind == (KindView::TextLink { url }),
    ensures
        ({
            let draft = walk.result()->0;
            &&& (walk.rewrite)(url) matches Rewrite::Replace(new) ==> {
                &&& draft.entities[i].kind == (KindView::TextLink { url: new })
                &&& draft.effect == Effect::Mutated
            }
            &&& (walk.rewrite)(url) is Keep ==> draft.entities[i].kind == (KindView::TextLink {
                url,
            })
            &&& !((walk.rewrite)(url) is TooLong)
        }),
{
    law_entities_keep_their_kinds(walk);
    law_effect_tells_of_rewriting(walk);
    lemma_link_is_put(walk, i, url);
}

proof fn lemma_link_is_put(walk: Walk, i: int, url: UrlView)
    requires
        walk.result() is Some,
        0 <= i < walk.entities.len(),
        walk.entities[i].kind == (KindView::TextLink { url }),
    ensures
        (walk.rewrite)(url) is Replace ==> is_mutated_at(walk, i),
        !((walk.rewrite)(url) is TooLong),
{
    lemma_links_are_short(walk, i);
    lemma_walked_prefix(walk.rewrite, walk.text, walk.entities, i as nat, walk.entities.len());
    lemma_kinds(walk, i as nat);
    assert(walk.after(i as nat)->0.entities[i].kind == walk.entities[i].kind);
}

/// Every other entity is of the same kind after the walk, and holds what it held.
pub proof fn law_other_kinds_stay(walk: Walk, i: int)
    requires
        walk.result() is Some,
        0 <= i < walk.entities.len(),
        !(walk.entities[i].kind is TextLink),
    ensures
        walk.result()->0.entities.len() == walk.entities.len(),
        walk.result()->0.entities[i].kind == walk.entities[i].kind,
{
    law_entities_keep_their_kinds(walk);
}

/// Whether an entity holds a URL for which something else is decided than to replace it: one in the
/// text, or one of a link.
pub open spec fn leaves_url(walk: Walk, i: int) -> bool {
    let entity = walk.entities[i];
    &&& entity.kind is Url && 0 < entity.length ==> (parsed_with_default_scheme(
        utf16_lossy(walk.text.subrange(entity.offset as int, entity.offset + entity.length)),
    ) matches Ok(url) ==> !((walk.rewrite)(url) is Replace))
    &&& entity.kind matches KindView::TextLink { url } ==> !((walk.rewrite)(url) is Replace)
}

/// Whether an entity holds no URL that is too long.
pub open spec fn holds_no_long_url(walk: Walk, i: int) -> bool {
    let entity = walk.entities[i];
    &&& entity.kind is Url && 0 < entity.length ==> (parsed_with_default_scheme(
        utf16_lossy(walk.text.subrange(entity.offset as int, entity.offset + entity.length)),
    ) matches Ok(url) ==> !((walk.rewrite)(url) is TooLong))
    &&& entity.kind matches KindView::TextLink { url } ==> !((walk.rewrite)(url) is TooLong)
}

/// A walk visits every entity where the marked URLs are within the text, none shares a unit with a
/// rewritten one before it, and none is too long. It is a mutation exactly where a URL is replaced.
pub proof fn law_walk_tells_of_every_url(walk: Walk)
    requires
        walk.in_step(),
        walk.is_indexable(),
        forall|i: int| 0 <= i < walk.entities.len() ==> #[trigger] holds_no_long_url(walk, i),
    ensures
        walk.result() matches Some(draft) && {
            draft.effect == Effect::Skipped <==> forall|i: int|
                0 <= i < walk.entities.len() ==> #[trigger] leaves_url(walk, i)
        },
{
    assert forall|i: int| 0 <= i < walk.entities.len() implies #[trigger] is_short_enough(
        walk,
        i,
    ) by {
        assert(holds_no_long_url(walk, i));
    }
    law_walk_succeeds(walk);
    law_effect_tells_of_rewriting(walk);
    assert forall|i: int| 0 <= i < walk.entities.len() implies (#[trigger] leaves_url(walk, i)
        <==> !is_mutated_at(walk, i)) by {
        lemma_put_at(walk, i);
        assert(walk.entities[i].kind is Url ==> end_of(walk.entities[i]) <= walk.text.len());
    }
    let draft = walk.result()->0;
    if draft.effect == Effect::Mutated {
        let i = choose|i: int| 0 <= i < walk.entities.len() && #[trigger] is_mutated_at(walk, i);
        assert(!leaves_url(walk, i));
    }
    if !(forall|i: int| 0 <= i < walk.entities.len() ==> #[trigger] leaves_url(walk, i)) {
        let i = choose|i: int| 0 <= i < walk.entities.len() && !(#[trigger] leaves_url(walk, i));
        assert(is_mutated_at(walk, i));
    }
}

} // verus!
