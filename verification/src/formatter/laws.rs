//! What a walk keeps of a message.

use vstd::prelude::*;

use crate::address::{can_be_reread, parsed_with_default_scheme, UrlView};
use crate::entity::{EntityView, KindView};
use crate::formatter::walk::{
    decision, lemma_walked_prefix, put_at, rereads, rewritten, shifted, spliced, stays_indexable,
    step, walked, Draft, Effect, Rewrite,
};
use crate::text::{law_utf16_round_trip, utf16, utf16_lossy};

verus! {

/// Where an entity ends.
pub open spec fn end_of(entity: EntityView) -> int {
    entity.offset + entity.length
}

/// Whether two entities mark no unit in common.
pub open spec fn disjoint(a: EntityView, b: EntityView) -> bool {
    end_of(a) <= b.offset || end_of(b) <= a.offset
}

/// A walk over the entities of a message.
pub struct Walk {
    pub rewrite: spec_fn(UrlView) -> Rewrite,
    pub text: Seq<u16>,
    pub entities: Seq<EntityView>,
}

impl Walk {
    /// The message once the first `count` entities were visited.
    pub open spec fn after(self, count: nat) -> Option<Draft> {
        walked(self.rewrite, self.text, self.entities, count)
    }

    /// The message after the whole walk.
    pub open spec fn result(self) -> Option<Draft> {
        rewritten(self.rewrite, self.text, self.entities)
    }

    /// The URL that takes the place of the one that an entity marks in the text, if one does.
    pub open spec fn replacement(self, i: int) -> Option<UrlView> {
        let entity = self.entities[i];
        if entity.kind is Url && 0 < entity.length && end_of(entity) <= self.text.len() {
            match parsed_with_default_scheme(
                utf16_lossy(self.text.subrange(entity.offset as int, end_of(entity))),
            ) {
                Ok(url) => match (self.rewrite)(url) {
                    Rewrite::Replace(new) => Some(new),
                    _ => None,
                },
                Err(_) => None,
            }
        } else {
            None
        }
    }

    /// How many units an entity marks after the walk.
    pub open spec fn new_length(self, i: int) -> int {
        match self.replacement(i) {
            Some(new) => utf16(new.text).len() as int,
            None => self.entities[i].length as int,
        }
    }

    /// Whether an entity marks no unit of a URL that is rewritten, among those that the first
    /// `count` entities mark, and lies before those that come after it in the list.
    pub open spec fn is_clear(self, i: int, count: nat) -> bool {
        forall|j: int|
            0 <= j < count && i != j && (#[trigger] self.replacement(j)) is Some ==> if j < i {
                disjoint(self.entities[i], self.entities[j])
            } else {
                end_of(self.entities[i]) <= self.entities[j].offset
            }
    }

    /// Whether the URLs that the entities mark are within the text, and no one shares a unit with
    /// one earlier in the list that is rewritten.
    pub open spec fn in_step(self) -> bool {
        forall|i: int|
            0 <= i < self.entities.len() && (#[trigger] self.entities[i]).kind is Url ==> {
                &&& end_of(self.entities[i]) <= self.text.len()
                &&& self.is_clear(i, i as nat)
            }
    }

    /// Whether the text never grows beyond what the machine can index.
    pub open spec fn is_indexable(self) -> bool {
        stays_indexable(self.rewrite, self.text, self.entities)
    }

    /// By how much a position of the text moves: by what the rewritten URLs that start before it,
    /// among those that the first `count` entities mark, grow or shrink.
    pub open spec fn moved_by(self, count: nat, position: int) -> int
        decreases count,
    {
        if count == 0 {
            0
        } else {
            let k = count - 1;
            let earlier = self.moved_by(k as nat, position);
            if self.replacement(k) is Some && self.entities[k].offset < position {
                earlier + self.new_length(k) - self.entities[k].length
            } else {
                earlier
            }
        }
    }

    /// Where a position of the text is after the visits of the first `count` entities.
    pub open spec fn place(self, count: nat, position: int) -> int {
        position + self.moved_by(count, position)
    }

    /// Whether a position lies in none of the rewritten URLs that the first `count` entities mark.
    pub open spec fn is_outside(self, count: nat, position: int) -> bool {
        forall|j: int|
            0 <= j < count && (#[trigger] self.replacement(j)) is Some ==> !(
            self.entities[j].offset <= position < end_of(self.entities[j]))
    }

    /// Whether a position is not between two units of a rewritten URL that the first `count`
    /// entities mark.
    spec fn is_free(self, count: nat, position: int) -> bool {
        forall|j: int|
            0 <= j < count && (#[trigger] self.replacement(j)) is Some ==> !(
            self.entities[j].offset < position < end_of(self.entities[j]))
    }

    spec fn places_are_ordered(self, count: nat, length: int) -> bool {
        &&& self.place(count, self.text.len() as int) == length
        &&& forall|p: int|
            0 <= p <= self.text.len() && #[trigger] self.is_free(count, p) ==> 0 <= self.place(
                count,
                p,
            ) <= length
        &&& forall|p: int, q: int|
            0 <= p <= q <= self.text.len() && #[trigger] self.is_free(count, p)
                && #[trigger] self.is_free(count, q) ==> self.place(count, p) <= self.place(
                count,
                q,
            )
    }

    spec fn units_are_kept(self, count: nat, text: Seq<u16>) -> bool {
        forall|p: int|
            0 <= p < self.text.len() && #[trigger] self.is_outside(count, p) ==> 0 <= self.place(
                count,
                p,
            ) < text.len() && text[self.place(count, p)] == self.text[p]
    }

    spec fn urls_are_placed(self, count: nat, text: Seq<u16>) -> bool {
        &&& forall|j: int|
            0 <= j < count && (#[trigger] self.replacement(j)) is Some ==> {
                let start = self.place(count, self.entities[j].offset as int);
                &&& 0 <= start
                &&& start + self.new_length(j) <= text.len()
                &&& text.subrange(start, start + self.new_length(j)) == utf16(
                    self.replacement(j)->0.text,
                )
            }
        &&& forall|j: int, q: int|
            0 <= j < count && (#[trigger] self.replacement(j)) is Some && end_of(self.entities[j])
                <= q <= self.text.len() && #[trigger] self.is_free(count, q) ==> self.place(
                count,
                self.entities[j].offset as int,
            ) + self.new_length(j) <= self.place(count, q)
    }

    spec fn entities_are_placed(self, count: nat, entities: Seq<EntityView>) -> bool {
        &&& entities.len() == self.entities.len()
        &&& forall|i: int|
            0 <= i < entities.len() ==> (#[trigger] entities[i]).length == if i < count {
                self.new_length(i)
            } else {
                self.entities[i].length as int
            }
        &&& forall|i: int|
            count <= i < entities.len() ==> (#[trigger] entities[i]).kind == self.entities[i].kind
        &&& forall|i: int|
            0 <= i < entities.len() && end_of(self.entities[i]) <= self.text.len()
                && #[trigger] self.is_clear(i, count) ==> entities[i].offset == self.place(
                count,
                self.entities[i].offset as int,
            )
    }

    spec fn in_sync(self, count: nat, draft: Draft) -> bool {
        &&& self.places_are_ordered(count, draft.text.len() as int)
        &&& self.units_are_kept(count, draft.text)
        &&& self.urls_are_placed(count, draft.text)
        &&& self.entities_are_placed(count, draft.entities)
    }

    /// Whether an entity marks what it marked, or the URL that took its place.
    pub open spec fn follows(self, i: int, draft: Draft) -> bool {
        let entity = draft.entities[i];
        &&& end_of(entity) <= draft.text.len()
        &&& draft.text.subrange(entity.offset as int, end_of(entity)) == match self.replacement(i) {
            Some(new) => utf16(new.text),
            None => self.text.subrange(
                self.entities[i].offset as int,
                end_of(self.entities[i]),
            ),
        }
    }
}

/// Over the range of an entity that is clear, positions move alike.
proof fn lemma_moves_alike(walk: Walk, i: int, count: nat, position: int)
    requires
        walk.in_step(),
        count <= walk.entities.len(),
        0 <= i < walk.entities.len(),
        walk.is_clear(i, count),
        i >= count || walk.replacement(i) is None,
        walk.entities[i].offset <= position <= end_of(walk.entities[i]),
    ensures
        walk.moved_by(count, position) == walk.moved_by(count, walk.entities[i].offset as int),
    decreases count,
{
    if count > 0 {
        let k = (count - 1) as nat;
        assert(walk.is_clear(i, k));
        lemma_moves_alike(walk, i, k, position);
        assert(walk.entities[k as int].kind is Url ==> walk.replacement(k as int) is Some
            ==> walk.entities[k as int].length > 0);
    }
}

/// What is outside moves like what comes next.
proof fn lemma_next_moves_alike(walk: Walk, count: nat, position: int)
    requires
        walk.in_step(),
        count <= walk.entities.len(),
        walk.is_outside(count, position),
    ensures
        walk.moved_by(count, position + 1) == walk.moved_by(count, position),
    decreases count,
{
    if count > 0 {
        let k = (count - 1) as nat;
        assert(walk.is_outside(k, position));
        lemma_next_moves_alike(walk, k, position);
        assert(walk.entities[k as int].kind is Url ==> walk.replacement(k as int) is Some
            ==> walk.entities[k as int].length > 0);
    }
}

/// The range of an entity that is clear is as it was.
proof fn lemma_range_kept(walk: Walk, i: int, count: nat, draft: Draft)
    requires
        walk.in_step(),
        count <= walk.entities.len(),
        0 <= i < walk.entities.len(),
        walk.is_clear(i, count),
        i >= count || walk.replacement(i) is None,
        end_of(walk.entities[i]) <= walk.text.len(),
        walk.in_sync(count, draft),
    ensures
        ({
            let start = walk.place(count, walk.entities[i].offset as int);
            let end = walk.place(count, end_of(walk.entities[i]));
            &&& 0 <= start
            &&& end == start + walk.entities[i].length
            &&& end <= draft.text.len()
            &&& draft.text.subrange(start, end) == walk.text.subrange(
                walk.entities[i].offset as int,
                end_of(walk.entities[i]),
            )
            &&& walk.is_free(count, walk.entities[i].offset as int)
            &&& walk.is_free(count, end_of(walk.entities[i]))
        }),
{
    let entity = walk.entities[i];
    let start = walk.place(count, entity.offset as int);
    let end = walk.place(count, end_of(entity));
    lemma_moves_alike(walk, i, count, end_of(entity));
    assert(walk.is_free(count, entity.offset as int));
    assert(walk.is_free(count, end_of(entity)));
    let here = draft.text.subrange(start, end);
    let there = walk.text.subrange(entity.offset as int, end_of(entity));
    assert forall|q: int| 0 <= q < there.len() implies here[q] == #[trigger] there[q] by {
        let p = entity.offset + q;
        lemma_moves_alike(walk, i, count, p);
        assert(walk.is_outside(count, p)) by {
            assert forall|j: int|
                0 <= j < count && (#[trigger] walk.replacement(j)) is Some implies !(
            walk.entities[j].offset <= p < end_of(walk.entities[j])) by {}
        }
        assert(draft.text[walk.place(count, p)] == walk.text[p]);
    }
    assert(here =~= there);
}

/// The visit of a URL reads it as it was.
proof fn lemma_visit_reads(walk: Walk, k: nat, draft: Draft)
    requires
        walk.in_step(),
        k < walk.entities.len(),
        walk.in_sync(k, draft),
        walk.entities[k as int].kind is Url,
    ensures
        draft.entities[k as int].kind is Url,
        draft.entities[k as int].length == walk.entities[k as int].length,
        draft.entities[k as int].offset == walk.place(k, walk.entities[k as int].offset as int),
        end_of(draft.entities[k as int]) <= draft.text.len(),
        decision(walk.rewrite, draft.text, draft.entities[k as int]) == decision(
            walk.rewrite,
            walk.text,
            walk.entities[k as int],
        ),
{
    let entity = walk.entities[k as int];
    assert(walk.is_clear(k as int, k));
    lemma_range_kept(walk, k as int, k, draft);
    assert(draft.entities[k as int].kind == entity.kind);
}

/// A visit that replaces no URL in the text keeps everything in its place.
proof fn lemma_quiet_visit(walk: Walk, k: nat, draft: Draft, next: Draft)
    requires
        walk.in_step(),
        k < walk.entities.len(),
        walk.in_sync(k, draft),
        walk.replacement(k as int) is None,
        step(walk.rewrite, draft, k as int) == Some(next),
    ensures
        walk.in_sync((k + 1) as nat, next),
{
    let entity = walk.entities[k as int];
    let count = (k + 1) as nat;
    if entity.kind is Url {
        lemma_visit_reads(walk, k, draft);
    } else {
        assert(draft.entities[k as int].kind == entity.kind);
    }
    assert(next.text == draft.text);
    assert forall|p: int| #[trigger] walk.is_free(count, p) implies walk.is_free(k, p) by {}
    assert forall|p: int| #[trigger] walk.is_outside(count, p) implies walk.is_outside(k, p) by {}
    assert forall|i: int| #[trigger] walk.is_clear(i, count) implies walk.is_clear(i, k) by {}
    assert forall|p: int| walk.moved_by(count, p) == #[trigger] walk.moved_by(k, p) by {}
    assert forall|i: int| 0 <= i < next.entities.len() implies (#[trigger] next.entities[i]).length
        == draft.entities[i].length && next.entities[i].offset == draft.entities[i].offset by {}
    assert forall|i: int| count <= i < next.entities.len() implies #[trigger] next.entities[i]
        == draft.entities[i] by {}
    assert(walk.urls_are_placed(count, next.text)) by {
        assert forall|j: int| 0 <= j < count && (#[trigger] walk.replacement(j)) is Some implies j < k by {}
    }
}

/// A visit that replaces a URL in the text moves what comes after it.
#[verifier::rlimit(40)]
proof fn lemma_loud_visit(walk: Walk, k: nat, draft: Draft, next: Draft)
    requires
        walk.in_step(),
        k < walk.entities.len(),
        walk.in_sync(k, draft),
        walk.replacement(k as int) is Some,
        step(walk.rewrite, draft, k as int) == Some(next),
        next.text.len() <= usize::MAX,
    ensures
        walk.in_sync((k + 1) as nat, next),
{
    let entity = walk.entities[k as int];
    let count = (k + 1) as nat;
    let new = utf16(walk.replacement(k as int)->0.text);
    let start = walk.place(k, entity.offset as int);
    let end = walk.place(k, end_of(entity));
    let growth = new.len() - entity.length;
    assert(walk.is_clear(k as int, k));
    lemma_range_kept(walk, k as int, k, draft);
    lemma_visit_reads(walk, k, draft);
    assert(entity.length > 0);
    assert(next.text == spliced(draft.text, start, end, new));
    assert(next.entities == shifted(draft.entities, k as int, new.len()));
    assert forall|p: int| #[trigger] walk.is_free(count, p) implies walk.is_free(k, p) && (p
        <= entity.offset || end_of(entity) <= p) by {
        assert(walk.replacement(k as int) is Some);
    }
    assert forall|p: int| #[trigger] walk.is_outside(count, p) implies walk.is_outside(k, p) && (p
        < entity.offset || end_of(entity) <= p) by {
        assert(walk.replacement(k as int) is Some);
    }
    assert forall|p: int| #[trigger]
        walk.place(count, p) == walk.place(k, p) + (if entity.offset < p {
            growth
        } else {
            0
        }) by {}
    lemma_loud_places(walk, k, draft.text.len() as int);
    assert(walk.units_are_kept(count, next.text)) by {
        assert forall|p: int|
            0 <= p < walk.text.len() && #[trigger] walk.is_outside(count, p) implies 0
            <= walk.place(count, p) < next.text.len() && next.text[walk.place(count, p)]
            == walk.text[p] by {
            assert(walk.is_outside(k, p));
            if p < entity.offset {
                lemma_next_moves_alike(walk, k, p);
                assert(walk.is_free(k, p + 1));
                assert(walk.place(k, p + 1) <= start);
            } else {
                assert(walk.is_free(k, p));
                assert(end <= walk.place(k, p));
            }
        }
    }
    lemma_loud_urls(walk, k, draft, next);
    lemma_loud_entities(walk, k, draft, next);
}

proof fn lemma_loud_places(walk: Walk, k: nat, length: int)
    requires
        walk.in_step(),
        k < walk.entities.len(),
        walk.places_are_ordered(k, length),
        walk.replacement(k as int) is Some,
        walk.is_free(k, walk.entities[k as int].offset as int),
        walk.is_free(k, end_of(walk.entities[k as int])),
        walk.place(k, end_of(walk.entities[k as int])) == walk.place(
            k,
            walk.entities[k as int].offset as int,
        ) + walk.entities[k as int].length,
    ensures
        walk.places_are_ordered(
            (k + 1) as nat,
            length + walk.new_length(k as int) - walk.entities[k as int].length,
        ),
{
    let entity = walk.entities[k as int];
    let count = (k + 1) as nat;
    let growth = walk.new_length(k as int) - entity.length;
    let start = walk.place(k, entity.offset as int);
    let end = walk.place(k, end_of(entity));
    assert(entity.kind is Url && entity.length > 0 && end_of(entity) <= walk.text.len());
    assert(walk.new_length(k as int) >= 0);
    assert forall|p: int| #[trigger] walk.is_free(count, p) implies walk.is_free(k, p) && (p
        <= entity.offset || end_of(entity) <= p) by {
        assert(walk.replacement(k as int) is Some);
    }
    assert forall|p: int| #[trigger]
        walk.place(count, p) == walk.place(k, p) + (if entity.offset < p {
            growth
        } else {
            0
        }) by {}
    assert forall|p: int| 0 <= p <= walk.text.len() && #[trigger] walk.is_free(count, p) implies 0
        <= walk.place(count, p) <= length + growth by {
        if p <= entity.offset {
            assert(walk.place(k, p) <= start);
            assert(end <= length);
        } else {
            assert(end <= walk.place(k, p));
        }
    }
    assert forall|p: int, q: int|
        0 <= p <= q <= walk.text.len() && #[trigger] walk.is_free(count, p)
            && #[trigger] walk.is_free(count, q) implies walk.place(count, p) <= walk.place(
        count,
        q,
    ) by {
        assert(walk.place(k, p) <= walk.place(k, q));
        if p <= entity.offset && end_of(entity) <= q {
            assert(walk.place(k, p) <= start);
            assert(end <= walk.place(k, q));
        }
    }
}

proof fn lemma_loud_urls(walk: Walk, k: nat, draft: Draft, next: Draft)
    requires
        walk.in_step(),
        k < walk.entities.len(),
        walk.in_sync(k, draft),
        walk.replacement(k as int) is Some,
        walk.is_clear(k as int, k),
        walk.is_free(k, walk.entities[k as int].offset as int),
        walk.is_free(k, end_of(walk.entities[k as int])),
        walk.place(k, end_of(walk.entities[k as int])) == walk.place(
            k,
            walk.entities[k as int].offset as int,
        ) + walk.entities[k as int].length,
        next.text == spliced(
            draft.text,
            walk.place(k, walk.entities[k as int].offset as int),
            walk.place(k, end_of(walk.entities[k as int])),
            utf16(walk.replacement(k as int)->0.text),
        ),
    ensures
        walk.urls_are_placed((k + 1) as nat, next.text),
{
    let entity = walk.entities[k as int];
    let count = (k + 1) as nat;
    let new = utf16(walk.replacement(k as int)->0.text);
    let start = walk.place(k, entity.offset as int);
    let end = walk.place(k, end_of(entity));
    let growth = new.len() - entity.length;
    assert(entity.kind is Url && entity.length > 0 && end_of(entity) <= walk.text.len());
    assert(0 <= start && end <= draft.text.len());
    assert forall|p: int| #[trigger] walk.is_free(count, p) implies walk.is_free(k, p) && (p
        <= entity.offset || end_of(entity) <= p) by {
        assert(walk.replacement(k as int) is Some);
    }
    assert forall|p: int| #[trigger]
        walk.place(count, p) == walk.place(k, p) + (if entity.offset < p {
            growth
        } else {
            0
        }) by {}
    assert forall|j: int| 0 <= j < k && (#[trigger] walk.replacement(j)) is Some implies (if walk.entities[j].offset
        < entity.offset {
        end_of(walk.entities[j]) <= entity.offset
    } else {
        end_of(entity) <= walk.entities[j].offset
    }) by {
        assert(walk.entities[j].kind is Url);
        assert(walk.entities[j].length > 0);
        assert(disjoint(entity, walk.entities[j]));
    }
    assert forall|j: int| 0 <= j < count && (#[trigger] walk.replacement(j)) is Some implies ({
        let place = walk.place(count, walk.entities[j].offset as int);
        &&& 0 <= place
        &&& place + walk.new_length(j) <= next.text.len()
        &&& next.text.subrange(place, place + walk.new_length(j)) == utf16(
            walk.replacement(j)->0.text,
        )
    }) by {
        let was = walk.place(k, walk.entities[j].offset as int);
        let place = walk.place(count, walk.entities[j].offset as int);
        let length = walk.new_length(j);
        if j == k {
            assert(next.text.subrange(start, start + new.len()) =~= new);
        } else if walk.entities[j].offset < entity.offset {
            assert(was + length <= start);
            assert(next.text.subrange(place, place + length) =~= draft.text.subrange(
                was,
                was + length,
            ));
        } else {
            assert(walk.is_clear(k as int, k));
            assert(walk.is_free(k, walk.entities[j].offset as int)) by {
                lemma_url_starts_free(walk, j, k);
            }
            assert(end <= was);
            assert(next.text.subrange(place, place + length) =~= draft.text.subrange(
                was,
                was + length,
            ));
        }
    }
    assert forall|j: int, q: int|
        0 <= j < count && (#[trigger] walk.replacement(j)) is Some && end_of(walk.entities[j]) <= q
            <= walk.text.len() && #[trigger] walk.is_free(count, q) implies walk.place(
        count,
        walk.entities[j].offset as int,
    ) + walk.new_length(j) <= walk.place(count, q) by {
        if j == k {
            assert(end <= walk.place(k, q));
        } else {
            assert(walk.place(k, walk.entities[j].offset as int) + walk.new_length(j)
                <= walk.place(k, q));
            if walk.entities[j].offset < entity.offset && end_of(entity) <= q {
                assert(walk.place(k, walk.entities[j].offset as int) + walk.new_length(j) <= start);
                assert(end <= walk.place(k, q));
            }
        }
    }
}

/// A rewritten URL starts within no other.
proof fn lemma_url_starts_free(walk: Walk, j: int, count: nat)
    requires
        walk.in_step(),
        count <= walk.entities.len(),
        0 <= j < count,
        walk.replacement(j) is Some,
    ensures
        walk.is_free(count, walk.entities[j].offset as int),
{
    assert(walk.entities[j].kind is Url);
    assert forall|i: int| 0 <= i < count && (#[trigger] walk.replacement(i)) is Some implies !(
    walk.entities[i].offset < walk.entities[j].offset < end_of(walk.entities[i])) by {
        assert(walk.entities[i].kind is Url);
        if i < j {
            assert(walk.is_clear(j, j as nat));
        } else if j < i {
            assert(walk.is_clear(i, i as nat));
        }
    }
}

proof fn lemma_loud_entities(walk: Walk, k: nat, draft: Draft, next: Draft)
    requires
        walk.in_step(),
        k < walk.entities.len(),
        walk.in_sync(k, draft),
        walk.replacement(k as int) is Some,
        walk.is_clear(k as int, k),
        walk.is_free(k, walk.entities[k as int].offset as int),
        walk.is_free(k, end_of(walk.entities[k as int])),
        walk.place(k, end_of(walk.entities[k as int])) == walk.place(
            k,
            walk.entities[k as int].offset as int,
        ) + walk.entities[k as int].length,
        next.entities == shifted(draft.entities, k as int, walk.new_length(k as int) as nat),
        walk.places_are_ordered((k + 1) as nat, next.text.len() as int),
        next.text.len() <= usize::MAX,
        draft.text.len() + walk.new_length(k as int) - walk.entities[k as int].length
            == next.text.len(),
    ensures
        walk.entities_are_placed((k + 1) as nat, next.entities),
{
    let entity = walk.entities[k as int];
    let count = (k + 1) as nat;
    let start = walk.place(k, entity.offset as int);
    let end = walk.place(k, end_of(entity));
    let length = walk.new_length(k as int);
    let growth = length - entity.length;
    assert(entity.kind is Url && entity.length > 0 && end_of(entity) <= walk.text.len());
    assert(draft.entities[k as int].offset == start);
    assert(draft.entities[k as int].length == entity.length);
    assert(0 <= start && end <= draft.text.len());
    assert(0 <= length <= usize::MAX);
    assert forall|p: int| #[trigger]
        walk.place(count, p) == walk.place(k, p) + (if entity.offset < p {
            growth
        } else {
            0
        }) by {}
    assert forall|i: int|
        0 <= i < next.entities.len() && end_of(walk.entities[i]) <= walk.text.len()
            && #[trigger] walk.is_clear(i, count) implies next.entities[i].offset == walk.place(
        count,
        walk.entities[i].offset as int,
    ) by {
        assert(walk.is_clear(i, k)) by {
            assert forall|j: int|
                0 <= j < k && i != j && (#[trigger] walk.replacement(j)) is Some implies (if j < i {
                disjoint(walk.entities[i], walk.entities[j])
            } else {
                end_of(walk.entities[i]) <= walk.entities[j].offset
            }) by {}
        }
        let offset = walk.entities[i].offset as int;
        assert(draft.entities[i].offset == walk.place(k, offset));
        if i > k {
            assert(walk.replacement(k as int) is Some);
            assert(disjoint(walk.entities[i], entity));
            assert(walk.is_free(k, offset));
            assert(walk.is_free(count, offset));
            if end_of(walk.entities[i]) <= entity.offset {
                assert(walk.place(k, offset) <= start);
            } else {
                assert(end <= walk.place(k, offset));
                assert(walk.place(count, offset) <= next.text.len());
            }
        } else if i < k {
            assert(walk.replacement(k as int) is Some);
            assert(end_of(walk.entities[i]) <= entity.offset);
        }
    }
}

proof fn lemma_in_sync(walk: Walk, count: nat)
    requires
        walk.in_step(),
        walk.is_indexable(),
        count <= walk.entities.len(),
        walk.after(count) is Some,
    ensures
        walk.in_sync(count, walk.after(count)->0),
    decreases count,
{
    let draft = walk.after(count)->0;
    if count == 0 {
        assert(walk.in_sync(0, draft));
    } else {
        let k = (count - 1) as nat;
        lemma_in_sync(walk, k);
        let prior = walk.after(k)->0;
        assert(step(walk.rewrite, prior, k as int) == Some(draft));
        assert(walked(walk.rewrite, walk.text, walk.entities, count) is Some);
        if walk.replacement(k as int) is Some {
            lemma_loud_visit(walk, k, prior, draft);
        } else {
            lemma_quiet_visit(walk, k, prior, draft);
        }
    }
}

/// Entities keep in step with the text: where no URL shares a unit with a rewritten one, an entity
/// that marks no unit of a rewritten URL, and lies before those that come after it in the list,
/// still marks what it marked, and a rewritten URL is marked in its new form.
pub proof fn law_entities_follow_the_text(walk: Walk, i: int)
    requires
        walk.in_step(),
        walk.is_indexable(),
        walk.result() is Some,
        0 <= i < walk.entities.len(),
        walk.is_clear(i, walk.entities.len()),
        end_of(walk.entities[i]) <= walk.text.len(),
    ensures
        walk.follows(i, walk.result()->0),
        walk.result()->0.entities[i].offset == walk.place(
            walk.entities.len(),
            walk.entities[i].offset as int,
        ),
        walk.result()->0.entities[i].length == walk.new_length(i),
{
    let count = walk.entities.len();
    let draft = walk.result()->0;
    lemma_in_sync(walk, count);
    if walk.replacement(i) is None {
        lemma_range_kept(walk, i, count, draft);
    }
    assert(draft.entities[i].length == walk.new_length(i));
}

/// Where no URL shares a unit with a rewritten one, what lies outside of the rewritten URLs stays
/// in the text, moved by what the rewritten URLs before it grow or shrink.
pub proof fn law_rest_of_the_text_stays(walk: Walk, position: int)
    requires
        walk.in_step(),
        walk.is_indexable(),
        walk.result() is Some,
        0 <= position < walk.text.len(),
        walk.is_outside(walk.entities.len(), position),
    ensures
        ({
            let text = walk.result()->0.text;
            let place = walk.place(walk.entities.len(), position);
            &&& 0 <= place < text.len()
            &&& text[place] == walk.text[position]
        }),
{
    lemma_in_sync(walk, walk.entities.len());
}

/// Whether the entities are within a text, in their order and without a common unit.
pub open spec fn is_tidy(text: Seq<u16>, entities: Seq<EntityView>) -> bool {
    &&& forall|i: int|
        0 <= i < entities.len() ==> end_of(#[trigger] entities[i]) <= text.len()
    &&& forall|i: int, j: int|
        0 <= i < j < entities.len() ==> end_of(#[trigger] entities[i]) <= (
        #[trigger] entities[j]).offset
}

/// By how much the entities of a list grow, together.
pub open spec fn total_growth(before: Seq<EntityView>, now: Seq<EntityView>, count: nat) -> int
    decreases count,
{
    if count == 0 {
        0
    } else {
        total_growth(before, now, (count - 1) as nat) + now[count - 1].length - before[count
            - 1].length
    }
}

/// An entity in its order with every URL is clear of those that are rewritten.
proof fn lemma_ordered_is_clear(walk: Walk, i: int, count: nat)
    requires
        count <= walk.entities.len(),
        forall|j: int|
            0 <= j < walk.entities.len() && i != j && (#[trigger] walk.entities[j]).kind is Url
                ==> if j < i {
                end_of(walk.entities[j]) <= walk.entities[i].offset
            } else {
                end_of(walk.entities[i]) <= walk.entities[j].offset
            },
    ensures
        walk.is_clear(i, count),
{
    assert forall|j: int|
        0 <= j < count && i != j && (#[trigger] walk.replacement(j)) is Some implies (if j < i {
        disjoint(walk.entities[i], walk.entities[j])
    } else {
        end_of(walk.entities[i]) <= walk.entities[j].offset
    }) by {
        assert(walk.entities[j].kind is Url);
    }
}

/// Tidy entities are in step, and clear of every rewritten URL.
pub proof fn lemma_tidy_in_step(walk: Walk)
    requires
        is_tidy(walk.text, walk.entities),
    ensures
        walk.in_step(),
        forall|i: int, count: nat|
            0 <= i < walk.entities.len() && count <= walk.entities.len() ==> #[trigger] walk.is_clear(
                i,
                count,
            ),
{
    assert forall|i: int, count: nat|
        0 <= i < walk.entities.len() && count <= walk.entities.len() implies #[trigger] walk.is_clear(
        i,
        count,
    ) by {
        assert(walk.entities[i].offset >= 0);
        lemma_ordered_is_clear(walk, i, count);
    }
}

proof fn lemma_total_growth(walk: Walk, now: Seq<EntityView>, count: nat)
    requires
        is_tidy(walk.text, walk.entities),
        count <= walk.entities.len(),
        forall|i: int|
            0 <= i < walk.entities.len() ==> (#[trigger] now[i]).length == walk.new_length(i),
    ensures
        walk.moved_by(count, walk.text.len() as int) == total_growth(walk.entities, now, count),
    decreases count,
{
    if count > 0 {
        let k = count - 1;
        lemma_total_growth(walk, now, k as nat);
        assert(now[k].length == walk.new_length(k));
        assert(end_of(walk.entities[k]) <= walk.text.len());
    }
}

/// Entities within the text, in their order and without a common unit stay so, and the text grows
/// by as much as the entities do together.
pub proof fn law_tidy_entities_stay_tidy(walk: Walk)
    requires
        is_tidy(walk.text, walk.entities),
        walk.is_indexable(),
        walk.result() is Some,
    ensures
        is_tidy(walk.result()->0.text, walk.result()->0.entities),
        walk.result()->0.entities.len() == walk.entities.len(),
        walk.result()->0.text.len() - walk.text.len() == total_growth(
            walk.entities,
            walk.result()->0.entities,
            walk.entities.len(),
        ),
{
    let count = walk.entities.len();
    let draft = walk.result()->0;
    lemma_tidy_in_step(walk);
    lemma_in_sync(walk, count);
    assert forall|i: int| 0 <= i < count implies end_of(#[trigger] draft.entities[i])
        <= draft.text.len() by {
        assert(walk.is_clear(i, count));
        law_entities_follow_the_text(walk, i);
    }
    assert forall|i: int, j: int| 0 <= i < j < count implies end_of(#[trigger] draft.entities[i])
        <= (#[trigger] draft.entities[j]).offset by {
        assert(walk.is_clear(i, count));
        assert(walk.is_clear(j, count));
        assert(end_of(walk.entities[i]) <= walk.entities[j].offset);
        lemma_order_kept(walk, i, j);
    }
    lemma_total_growth(walk, draft.entities, count);
}

/// An entity that is clear starts within no rewritten URL.
proof fn lemma_clear_free(walk: Walk, i: int, count: nat)
    requires
        0 <= i < walk.entities.len(),
        count <= walk.entities.len(),
        walk.is_clear(i, count),
    ensures
        walk.is_free(count, walk.entities[i].offset as int),
{
    assert forall|j: int| 0 <= j < count && (#[trigger] walk.replacement(j)) is Some implies !(
    walk.entities[j].offset < walk.entities[i].offset < end_of(walk.entities[j])) by {
        if j < i {
            assert(disjoint(walk.entities[i], walk.entities[j]));
        }
    }
}

/// Clear entities stay in their order.
proof fn lemma_order_kept(walk: Walk, i: int, j: int)
    requires
        walk.in_step(),
        walk.is_indexable(),
        walk.result() is Some,
        0 <= i < walk.entities.len(),
        0 <= j < walk.entities.len(),
        walk.is_clear(i, walk.entities.len()),
        walk.is_clear(j, walk.entities.len()),
        end_of(walk.entities[i]) <= walk.entities[j].offset,
        end_of(walk.entities[j]) <= walk.text.len(),
    ensures
        end_of(walk.result()->0.entities[i]) <= walk.result()->0.entities[j].offset,
{
    let count = walk.entities.len();
    let draft = walk.result()->0;
    lemma_in_sync(walk, count);
    law_entities_follow_the_text(walk, i);
    law_entities_follow_the_text(walk, j);
    lemma_clear_free(walk, j, count);
    if walk.replacement(i) is Some {
        assert(walk.place(count, walk.entities[i].offset as int) + walk.new_length(i)
            <= walk.place(count, walk.entities[j].offset as int));
    } else {
        lemma_range_kept(walk, i, count, draft);
        assert(walk.place(count, end_of(walk.entities[i])) <= walk.place(
            count,
            walk.entities[j].offset as int,
        ));
    }
}

/// Whether the URLs that the entities mark are within a text, in their order and without a common
/// unit.
pub open spec fn has_tidy_urls(text: Seq<u16>, entities: Seq<EntityView>) -> bool {
    &&& forall|i: int|
        0 <= i < entities.len() && (#[trigger] entities[i]).kind is Url ==> end_of(entities[i])
            <= text.len()
    &&& forall|i: int, j: int|
        0 <= i < j < entities.len() && (#[trigger] entities[i]).kind is Url && (
        #[trigger] entities[j]).kind is Url ==> end_of(entities[i]) <= entities[j].offset
}

proof fn lemma_tidy_urls_in_step(walk: Walk)
    requires
        has_tidy_urls(walk.text, walk.entities),
    ensures
        walk.in_step(),
        forall|i: int, count: nat|
            0 <= i < walk.entities.len() && walk.entities[i].kind is Url && count
                <= walk.entities.len() ==> #[trigger] walk.is_clear(i, count),
{
    assert forall|i: int, count: nat|
        0 <= i < walk.entities.len() && walk.entities[i].kind is Url && count
            <= walk.entities.len() implies #[trigger] walk.is_clear(i, count) by {
        lemma_ordered_is_clear(walk, i, count);
    }
}

/// The kind of an entity after a walk: the URL of a link may be rewritten, and nothing else.
pub open spec fn kind_after(rewrite: spec_fn(UrlView) -> Rewrite, kind: KindView) -> KindView {
    match kind {
        KindView::TextLink { url } => match rewrite(url) {
            Rewrite::Replace(new) => KindView::TextLink { url: new },
            _ => kind,
        },
        _ => kind,
    }
}

pub proof fn lemma_kinds(walk: Walk, count: nat)
    requires
        count <= walk.entities.len(),
        walk.after(count) is Some,
    ensures
        walk.after(count)->0.entities.len() == walk.entities.len(),
        forall|i: int|
            0 <= i < walk.entities.len() ==> (#[trigger] walk.after(count)->0.entities[i]).kind
                == if i < count {
                kind_after(walk.rewrite, walk.entities[i].kind)
            } else {
                walk.entities[i].kind
            },
    decreases count,
{
    if count > 0 {
        let k = (count - 1) as nat;
        lemma_kinds(walk, k);
        let prior = walk.after(k)->0;
        assert(prior.entities[k as int].kind == walk.entities[k as int].kind);
        assert(step(walk.rewrite, prior, k as int) == walk.after(count));
    }
}

/// Every entity stays in the list, in its place and of its kind; only the URL of a link may be
/// rewritten.
pub proof fn law_entities_keep_their_kinds(walk: Walk)
    requires
        walk.result() is Some,
    ensures
        walk.result()->0.entities.len() == walk.entities.len(),
        forall|i: int|
            0 <= i < walk.entities.len() ==> (#[trigger] walk.result()->0.entities[i]).kind
                == kind_after(walk.rewrite, walk.entities[i].kind),
{
    lemma_kinds(walk, walk.entities.len());
}

/// URLs within the text, in their order and without a common unit stay so, whatever else is
/// marked.
pub proof fn law_tidy_urls_stay_tidy(walk: Walk)
    requires
        has_tidy_urls(walk.text, walk.entities),
        walk.is_indexable(),
        walk.result() is Some,
    ensures
        has_tidy_urls(walk.result()->0.text, walk.result()->0.entities),
{
    let draft = walk.result()->0;
    let count = walk.entities.len();
    lemma_tidy_urls_in_step(walk);
    law_entities_keep_their_kinds(walk);
    assert forall|i: int| 0 <= i < count && (#[trigger] draft.entities[i]).kind is Url implies end_of(
        draft.entities[i],
    ) <= draft.text.len() by {
        assert(walk.is_clear(i, count));
        law_entities_follow_the_text(walk, i);
    }
    assert forall|i: int, j: int|
        0 <= i < j < count && (#[trigger] draft.entities[i]).kind is Url && (
        #[trigger] draft.entities[j]).kind is Url implies end_of(draft.entities[i])
        <= draft.entities[j].offset by {
        assert(walk.entities[i].kind is Url && walk.entities[j].kind is Url);
        assert(walk.is_clear(i, count));
        assert(walk.is_clear(j, count));
        lemma_order_kept(walk, i, j);
    }
}

/// Whether a URL is within the limits of URLs.
pub open spec fn is_short_enough(walk: Walk, i: int) -> bool {
    !(decision(walk.rewrite, walk.text, walk.entities[i]) is TooLong)
}

proof fn lemma_walk_succeeds(walk: Walk, count: nat)
    requires
        walk.in_step(),
        walk.is_indexable(),
        forall|i: int| 0 <= i < walk.entities.len() ==> #[trigger] is_short_enough(walk, i),
        count <= walk.entities.len(),
    ensures
        walk.after(count) is Some,
    decreases count,
{
    if count > 0 {
        let k = (count - 1) as nat;
        lemma_walk_succeeds(walk, k);
        lemma_in_sync(walk, k);
        let prior = walk.after(k)->0;
        assert(prior.entities[k as int].kind == walk.entities[k as int].kind);
        if walk.entities[k as int].kind is Url {
            lemma_visit_reads(walk, k, prior);
        }
        assert(is_short_enough(walk, k as int));
        assert(step(walk.rewrite, prior, k as int) == walk.after(count));
    }
}

/// A walk visits every entity, where no URL shares a unit with a rewritten one and none is too
/// long.
pub proof fn law_walk_succeeds(walk: Walk)
    requires
        walk.in_step(),
        walk.is_indexable(),
        forall|i: int| 0 <= i < walk.entities.len() ==> #[trigger] is_short_enough(walk, i),
    ensures
        walk.result() is Some,
{
    lemma_walk_succeeds(walk, walk.entities.len());
}

/// Tidy entities are walked over, where no URL is too long: each stays in its place in the list and
/// of its kind, they stay tidy, and the text grows by as much as they do together.
pub proof fn law_tidy_message_is_walked(walk: Walk)
    requires
        is_tidy(walk.text, walk.entities),
        walk.is_indexable(),
        forall|i: int| 0 <= i < walk.entities.len() ==> #[trigger] is_short_enough(walk, i),
    ensures
        walk.result() matches Some(draft) && {
            &&& draft.entities.len() == walk.entities.len()
            &&& forall|i: int|
                0 <= i < walk.entities.len() ==> (#[trigger] draft.entities[i]).kind == kind_after(
                    walk.rewrite,
                    walk.entities[i].kind,
                )
            &&& is_tidy(draft.text, draft.entities)
            &&& draft.text.len() - walk.text.len() == total_growth(
                walk.entities,
                draft.entities,
                walk.entities.len(),
            )
        },
{
    lemma_tidy_in_step(walk);
    law_walk_succeeds(walk);
    law_entities_keep_their_kinds(walk);
    law_tidy_entities_stay_tidy(walk);
}

/// Whether the visit of an entity replaces a URL.
pub open spec fn is_mutated_at(walk: Walk, i: int) -> bool {
    put_at(walk.rewrite, walk.text, walk.entities, i) is Some
}

proof fn lemma_effect(walk: Walk, count: nat)
    requires
        count <= walk.entities.len(),
        walk.after(count) is Some,
    ensures
        walk.after(count)->0.effect == Effect::Mutated <==> exists|i: int|
            0 <= i < count && #[trigger] is_mutated_at(walk, i),
    decreases count,
{
    if count > 0 {
        let k = (count - 1) as nat;
        lemma_effect(walk, k);
        let prior = walk.after(k)->0;
        let next = walk.after(count)->0;
        assert(step(walk.rewrite, prior, k as int) == Some(next));
        assert(is_mutated_at(walk, k as int) ==> next.effect == Effect::Mutated);
        assert(!is_mutated_at(walk, k as int) ==> next == prior);
        if next.effect == Effect::Mutated && !is_mutated_at(walk, k as int) {
            let i = choose|i: int| 0 <= i < k && #[trigger] is_mutated_at(walk, i);
            assert(is_mutated_at(walk, i));
        }
    }
}

/// The effect tells whether at least one URL was replaced.
pub proof fn law_effect_tells_of_rewriting(walk: Walk)
    requires
        walk.result() is Some,
    ensures
        walk.result()->0.effect == Effect::Mutated <==> exists|i: int|
            0 <= i < walk.entities.len() && #[trigger] is_mutated_at(walk, i),
{
    lemma_effect(walk, walk.entities.len());
}

proof fn lemma_skipped(walk: Walk, count: nat)
    requires
        count <= walk.entities.len(),
        walk.after(count) is Some,
        walk.after(count)->0.effect == Effect::Skipped,
    ensures
        walk.after(count) == Some(
            Draft { text: walk.text, entities: walk.entities, effect: Effect::Skipped },
        ),
    decreases count,
{
    if count > 0 {
        let k = (count - 1) as nat;
        assert(step(walk.rewrite, walk.after(k)->0, k as int) == walk.after(count));
        lemma_skipped(walk, k);
    }
}

/// A walk that replaces no URL leaves the message as it was.
pub proof fn law_skipped_changes_nothing(walk: Walk)
    requires
        walk.result() is Some,
        walk.result()->0.effect == Effect::Skipped,
    ensures
        walk.result()->0.text == walk.text,
        walk.result()->0.entities == walk.entities,
{
    lemma_skipped(walk, walk.entities.len());
}

/// Whether the URLs that the entities mark are within a text, and no URL is rewritten.
pub open spec fn is_settled(
    rewrite: spec_fn(UrlView) -> Rewrite,
    text: Seq<u16>,
    entities: Seq<EntityView>,
) -> bool {
    forall|i: int|
        0 <= i < entities.len() ==> {
            &&& (#[trigger] entities[i]).kind is Url ==> end_of(entities[i]) <= text.len()
            &&& decision(rewrite, text, entities[i]) is Keep
        }
}

proof fn lemma_settled(walk: Walk, count: nat)
    requires
        is_settled(walk.rewrite, walk.text, walk.entities),
        count <= walk.entities.len(),
    ensures
        walk.after(count) == Some(
            Draft { text: walk.text, entities: walk.entities, effect: Effect::Skipped },
        ),
    decreases count,
{
    if count > 0 {
        let k = count - 1;
        lemma_settled(walk, k as nat);
        assert(decision(walk.rewrite, walk.text, walk.entities[k]) is Keep);
    }
}

/// A message in which no URL is rewritten is skipped, and stays as it is.
pub proof fn law_settled_message_is_skipped(walk: Walk)
    requires
        is_settled(walk.rewrite, walk.text, walk.entities),
    ensures
        walk.result() == Some(
            Draft { text: walk.text, entities: walk.entities, effect: Effect::Skipped },
        ),
{
    lemma_settled(walk, walk.entities.len());
}

/// Whether a rewriter leaves a URL as it is, and also what is read in its text.
pub open spec fn keeps_reread(rewrite: spec_fn(UrlView) -> Rewrite, url: UrlView) -> bool {
    &&& rewrite(url) is Keep
    &&& parsed_with_default_scheme(url.text) matches Ok(again) ==> rewrite(again) is Keep
}

/// Whether a rewriter leaves as it is what a walk leaves as it is, and what it puts in the place
/// of something else.
pub open spec fn keeps_what_it_makes(walk: Walk, rewrite: spec_fn(UrlView) -> Rewrite) -> bool {
    forall|i: int|
        0 <= i < walk.entities.len() ==> match #[trigger] decision(
            walk.rewrite,
            walk.text,
            walk.entities[i],
        ) {
            Rewrite::Keep => decision(rewrite, walk.text, walk.entities[i]) is Keep,
            Rewrite::Replace(new) => {
                &&& rewrite(new) is Keep
                &&& walk.entities[i].kind is Url ==> keeps_reread(rewrite, new)
            },
            Rewrite::TooLong => true,
        }
}

/// No decision of a walk that ends well is that a URL is too long.
pub proof fn lemma_none_too_long(walk: Walk, i: int)
    requires
        walk.in_step(),
        walk.is_indexable(),
        walk.result() is Some,
        0 <= i < walk.entities.len(),
    ensures
        !(decision(walk.rewrite, walk.text, walk.entities[i]) is TooLong),
{
    lemma_walked_prefix(
        walk.rewrite,
        walk.text,
        walk.entities,
        (i + 1) as nat,
        walk.entities.len(),
    );
    lemma_walked_prefix(walk.rewrite, walk.text, walk.entities, i as nat, walk.entities.len());
    lemma_in_sync(walk, i as nat);
    let prior = walk.after(i as nat)->0;
    assert(prior.entities[i].kind == walk.entities[i].kind);
    if walk.entities[i].kind is Url {
        lemma_visit_reads(walk, i as nat, prior);
    }
    assert(step(walk.rewrite, prior, i) is Some);
}

/// After a walk over tidy URLs, nothing is left to rewrite for a rewriter that leaves as it is
/// what the walk makes of them.
pub proof fn law_walk_settles(walk: Walk, rewrite: spec_fn(UrlView) -> Rewrite)
    requires
        has_tidy_urls(walk.text, walk.entities),
        walk.is_indexable(),
        walk.result() is Some,
        keeps_what_it_makes(walk, rewrite),
    ensures
        is_settled(rewrite, walk.result()->0.text, walk.result()->0.entities),
{
    let draft = walk.result()->0;
    let count = walk.entities.len();
    lemma_tidy_urls_in_step(walk);
    law_entities_keep_their_kinds(walk);
    assert forall|i: int| 0 <= i < draft.entities.len() implies ({
        &&& (#[trigger] draft.entities[i]).kind is Url ==> end_of(draft.entities[i])
            <= draft.text.len()
        &&& decision(rewrite, draft.text, draft.entities[i]) is Keep
    }) by {
        lemma_none_too_long(walk, i);
        assert(draft.entities[i].kind == kind_after(walk.rewrite, walk.entities[i].kind));
        if walk.entities[i].kind is Url {
            assert(walk.is_clear(i, count));
            law_entities_follow_the_text(walk, i);
            let entity = draft.entities[i];
            if walk.replacement(i) is Some {
                law_utf16_round_trip(walk.replacement(i)->0.text);
            }
        }
    }
}

/// What the visit of a URL puts in its place is what takes its place in the text.
pub proof fn lemma_put_is_replacement(walk: Walk, i: int)
    requires
        walk.in_step(),
        walk.is_indexable(),
        walk.result() is Some,
        0 <= i < walk.entities.len(),
        walk.entities[i].kind is Url,
    ensures
        put_at(walk.rewrite, walk.text, walk.entities, i) == walk.replacement(i),
{
    lemma_walked_prefix(walk.rewrite, walk.text, walk.entities, i as nat, walk.entities.len());
    lemma_in_sync(walk, i as nat);
    lemma_visit_reads(walk, i as nat, walk.after(i as nat)->0);
}

/// What takes the place of a URL in an ordinary message is read as it is, where it is read at all.
pub proof fn lemma_reread_url(walk: Walk, i: int)
    requires
        has_tidy_urls(walk.text, walk.entities),
        walk.is_indexable(),
        walk.result() is Some,
        rereads(walk.rewrite, walk.text, walk.entities),
        0 <= i < walk.entities.len(),
        walk.replacement(i) is Some,
        can_be_reread(walk.replacement(i)->0),
    ensures
        parsed_with_default_scheme(walk.replacement(i)->0.text) matches Ok(again) ==> again
            == walk.replacement(i)->0,
{
    lemma_tidy_urls_in_step(walk);
    assert(walk.entities[i].kind is Url);
    lemma_put_is_replacement(walk, i);
}

/// No link of a message that was walked is too long.
pub proof fn lemma_links_are_short(walk: Walk, i: int)
    requires
        walk.result() is Some,
        0 <= i < walk.entities.len(),
    ensures
        walk.entities[i].kind matches KindView::TextLink { url } ==> !((walk.rewrite)(
            url,
        ) is TooLong),
{
    lemma_walked_prefix(
        walk.rewrite,
        walk.text,
        walk.entities,
        (i + 1) as nat,
        walk.entities.len(),
    );
    lemma_walked_prefix(walk.rewrite, walk.text, walk.entities, i as nat, walk.entities.len());
    lemma_kinds(walk, i as nat);
    let prior = walk.after(i as nat)->0;
    assert(prior.entities[i].kind == walk.entities[i].kind);
    assert(step(walk.rewrite, prior, i) is Some);
}

/// The visit of an entity replaces a URL where that is decided for it at first.
pub proof fn lemma_put_at(walk: Walk, i: int)
    requires
        walk.in_step(),
        walk.is_indexable(),
        walk.result() is Some,
        0 <= i < walk.entities.len(),
    ensures
        is_mutated_at(walk, i) <==> decision(
            walk.rewrite,
            walk.text,
            walk.entities[i],
        ) is Replace,
{
    lemma_walked_prefix(walk.rewrite, walk.text, walk.entities, i as nat, walk.entities.len());
    lemma_kinds(walk, i as nat);
    let prior = walk.after(i as nat)->0;
    assert(prior.entities[i].kind == walk.entities[i].kind);
    if walk.entities[i].kind is Url {
        lemma_put_is_replacement(walk, i);
        assert(end_of(walk.entities[i]) <= walk.text.len());
    }
}

} // verus!
