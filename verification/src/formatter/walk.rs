//! The walk over the entities of a message that rewrites its URLs.

use vstd::prelude::*;
use vstd::slice::slice_subrange;

use crate::address::{
    can_be_reread, is_reread, parse_with_default_scheme, parsed_with_default_scheme, Url, UrlView,
};
use crate::entity::{
    copy_entities, entity_views, EntityView, KindView, MessageEntity, MessageEntityKind,
};
use crate::text::{decode_utf16_lossy, encode_utf16, utf16, utf16_lossy};

verus! {

/// Whether at least one URL was modified.
#[derive(Clone, Copy, Debug, PartialEq, Eq, Structural)]
pub enum Effect {
    Mutated,
    Skipped,
}

/// What a rewriter does to a URL: nothing, or another URL in its place. A URL beyond the limits
/// of URLs cannot be rewritten.
pub enum Rewrite {
    Keep,
    Replace(UrlView),
    TooLong,
}

/// A [`Rewrite`] with the URL itself.
pub enum UrlRewrite {
    Keep,
    Replace(Url),
    TooLong,
}

impl View for UrlRewrite {
    type V = Rewrite;

    open spec fn view(&self) -> Rewrite {
        match self {
            UrlRewrite::Keep => Rewrite::Keep,
            UrlRewrite::Replace(url) => Rewrite::Replace(url@),
            UrlRewrite::TooLong => Rewrite::TooLong,
        }
    }
}

/// Something that decides for one URL at a time.
pub trait UrlRewriter {
    /// What becomes of a URL.
    spec fn rewrite(&self, url: UrlView) -> Rewrite;

    /// Decides what becomes of a URL.
    fn rewrite_url(&self, url: &Url) -> (rewrite: UrlRewrite)
        ensures
            rewrite@ == self.rewrite(url@),
            rewrite@ matches Rewrite::Replace(new) ==> can_be_reread(new) ==> is_reread(new),
    ;
}

/// A message on its way through a walk.
pub struct Draft {
    pub text: Seq<u16>,
    pub entities: Seq<EntityView>,
    pub effect: Effect,
}

/// An offset into a text, once the units from `start` to `end` are replaced by others: up to
/// `start` it stays, and beyond it keeps its distance from `end`, but does not go before `start`
/// or beyond what the machine can count.
pub open spec fn moved(offset: usize, start: int, end: int, length: nat) -> usize {
    let target = offset + length - (end - start);
    if offset <= start {
        offset
    } else if target < start {
        start as usize
    } else if target > usize::MAX {
        usize::MAX
    } else {
        target as usize
    }
}

/// A text with the units from `start` to `end` replaced.
pub open spec fn spliced(text: Seq<u16>, start: int, end: int, units: Seq<u16>) -> Seq<u16> {
    text.subrange(0, start) + units + text.subrange(end, text.len() as int)
}

/// The entities once what entity `k` marks is replaced by `length` units: it marks those, and the
/// entities after it in the list move with the text.
pub open spec fn shifted(entities: Seq<EntityView>, k: int, length: nat) -> Seq<EntityView> {
    let start = entities[k].offset as int;
    let end = start + entities[k].length;
    Seq::new(
        entities.len(),
        |i: int|
            if i < k {
                entities[i]
            } else if i == k {
                EntityView { length: length as usize, ..entities[i] }
            } else {
                EntityView { offset: moved(entities[i].offset, start, end, length), ..entities[i] }
            },
    )
}

/// The URL that a range of a text holds. An empty one holds none.
pub open spec fn url_in(text: Seq<u16>, start: int, end: int) -> Option<UrlView> {
    if start >= end {
        None
    } else {
        match parsed_with_default_scheme(utf16_lossy(text.subrange(start, end))) {
            Ok(url) => Some(url),
            Err(_) => None,
        }
    }
}

/// The URL of an entity: the one that it marks in the text, or the one of a link.
pub open spec fn url_of(text: Seq<u16>, entity: EntityView) -> Option<UrlView> {
    match entity.kind {
        KindView::Url => url_in(text, entity.offset as int, entity.offset + entity.length),
        KindView::TextLink { url } => Some(url),
        _ => None,
    }
}

/// What becomes of the URL of an entity.
pub open spec fn decision(
    rewrite: spec_fn(UrlView) -> Rewrite,
    text: Seq<u16>,
    entity: EntityView,
) -> Rewrite {
    match url_of(text, entity) {
        Some(url) => rewrite(url),
        None => Rewrite::Keep,
    }
}

/// What the visit of entity `k` makes of a message: a URL in the text is replaced there, and one
/// in the entity is replaced in the entity. `None` where the entity marks a URL that is not within
/// the text, or its URL is too long.
pub open spec fn step(rewrite: spec_fn(UrlView) -> Rewrite, draft: Draft, k: int) -> Option<Draft> {
    let entity = draft.entities[k];
    let end = entity.offset + entity.length;
    if entity.kind is Url && end > draft.text.len() {
        None
    } else {
        match decision(rewrite, draft.text, entity) {
            Rewrite::Keep => Some(draft),
            Rewrite::TooLong => None,
            Rewrite::Replace(new) => if entity.kind is Url {
                Some(
                    Draft {
                        text: spliced(draft.text, entity.offset as int, end, utf16(new.text)),
                        entities: shifted(draft.entities, k, utf16(new.text).len()),
                        effect: Effect::Mutated,
                    },
                )
            } else {
                Some(
                    Draft {
                        entities: draft.entities.update(
                            k,
                            EntityView { kind: KindView::TextLink { url: new }, ..entity },
                        ),
                        effect: Effect::Mutated,
                        ..draft
                    },
                )
            },
        }
    }
}

/// The message once the first `count` entities were visited; `None` where one of them could
/// not be.
pub open spec fn walked(
    rewrite: spec_fn(UrlView) -> Rewrite,
    text: Seq<u16>,
    entities: Seq<EntityView>,
    count: nat,
) -> Option<Draft>
    decreases count,
{
    if count == 0 {
        Some(Draft { text, entities, effect: Effect::Skipped })
    } else {
        match walked(rewrite, text, entities, (count - 1) as nat) {
            None => None,
            Some(draft) => step(rewrite, draft, count - 1),
        }
    }
}

/// The message after the whole walk.
pub open spec fn rewritten(
    rewrite: spec_fn(UrlView) -> Rewrite,
    text: Seq<u16>,
    entities: Seq<EntityView>,
) -> Option<Draft> {
    walked(rewrite, text, entities, entities.len())
}

/// The URL that the visit of entity `k` puts in the place of another one, if it does.
pub open spec fn put_at(
    rewrite: spec_fn(UrlView) -> Rewrite,
    text: Seq<u16>,
    entities: Seq<EntityView>,
    k: int,
) -> Option<UrlView> {
    match walked(rewrite, text, entities, k as nat) {
        Some(draft) => match decision(rewrite, draft.text, draft.entities[k]) {
            Rewrite::Replace(new) => Some(new),
            _ => None,
        },
        None => None,
    }
}

/// Whether the text of every URL that is put in the place of another one is read as that URL,
/// where it has a host, names no file and is read at all.
pub open spec fn rereads(
    rewrite: spec_fn(UrlView) -> Rewrite,
    text: Seq<u16>,
    entities: Seq<EntityView>,
) -> bool {
    forall|k: int|
        0 <= k < entities.len() && (#[trigger] put_at(rewrite, text, entities, k)) is Some ==> can_be_reread(
            put_at(rewrite, text, entities, k)->0,
        ) ==> is_reread(put_at(rewrite, text, entities, k)->0)
}

/// Whether the text never grows beyond what the machine can index.
pub open spec fn stays_indexable(
    rewrite: spec_fn(UrlView) -> Rewrite,
    text: Seq<u16>,
    entities: Seq<EntityView>,
) -> bool {
    forall|count: nat|
        count <= entities.len() && #[trigger] walked(rewrite, text, entities, count) is Some
            ==> walked(rewrite, text, entities, count)->0.text.len() <= usize::MAX
}

/// Replaces the units from `start` to `end`.
fn splice(text: &mut Vec<u16>, start: usize, end: usize, units: Vec<u16>)
    requires
        start <= end <= old(text)@.len(),
    ensures
        final(text)@ == spliced(old(text)@, start as int, end as int, units@),
{
    let mut middle = units;
    let mut tail = text.split_off(end);
    text.truncate(start);
    text.append(&mut middle);
    text.append(&mut tail);
    proof {
        assert(text@ == spliced(old(text)@, start as int, end as int, units@));
    }
}

/// Moves an offset into a text of which the units from `start` to `end` are replaced by others.
pub fn move_offset(offset: usize, start: usize, end: usize, length: usize) -> (target: usize)
    requires
        start <= end,
    ensures
        target == moved(offset, start as int, end as int, length as nat),
{
    let marked = end - start;
    if offset <= start {
        offset
    } else if length >= marked {
        let added = length - marked;
        if offset > usize::MAX - added {
            usize::MAX
        } else {
            offset + added
        }
    } else {
        let dropped = marked - length;
        if offset - start < dropped {
            start
        } else {
            offset - dropped
        }
    }
}

/// Marks the units that took the place of what an entity marked, and moves the entities after it
/// in the list.
pub fn shift_entities(entities: &mut Vec<MessageEntity>, k: usize, length: usize)
    requires
        k < old(entities)@.len(),
        old(entities)@[k as int].offset + old(entities)@[k as int].length <= usize::MAX,
    ensures
        entity_views(final(entities)@) == shifted(entity_views(old(entities)@), k as int, length as nat),
{
    let start = entities[k].offset;
    let end = start + entities[k].length;
    entities[k].length = length;
    proof {
        assert(entities.len() == entities@.len());
    }
    let mut i: usize = k + 1;
    while i < entities.len()
        invariant
            k < i <= entities@.len(),
            entities@.len() == old(entities)@.len(),
            start == old(entities)@[k as int].offset,
            end == start + old(entities)@[k as int].length,
            forall|j: int| 0 <= j < k ==> #[trigger] entities@[j] == old(entities)@[j],
            entities@[k as int]@ == (EntityView { length, ..old(entities)@[k as int]@ }),
            forall|j: int|
                k < j < i ==> (#[trigger] entities@[j])@ == (EntityView {
                    offset: moved(
                        old(entities)@[j].offset,
                        start as int,
                        end as int,
                        length as nat,
                    ),
                    ..old(entities)@[j]@
                }),
            forall|j: int| i <= j < entities@.len() ==> #[trigger] entities@[j] == old(entities)@[j],
        decreases entities@.len() - i,
    {
        entities[i].offset = move_offset(entities[i].offset, start, end, length);
        i += 1;
    }
    proof {
        assert(entity_views(entities@) =~= shifted(
            entity_views(old(entities)@),
            k as int,
            length as nat,
        ));
    }
}

/// The text that an entity marks; `None` where it is not within the text.
pub fn marked_text(text: &Vec<u16>, entity: &MessageEntity) -> (marked: Option<String>)
    ensures
        marked is Some <==> entity.offset + entity.length <= text@.len(),
        marked matches Some(marked) ==> marked@ == utf16_lossy(
            text@.subrange(entity.offset as int, entity.offset + entity.length),
        ),
{
    if entity.offset > text.len() || entity.length > text.len() - entity.offset {
        return None;
    }
    let end = entity.offset + entity.length;
    Some(decode_utf16_lossy(slice_subrange(text.as_slice(), entity.offset, end)))
}

/// Puts a URL in the place of the one that an entity marks in the text.
pub fn put_in_text(text: &mut Vec<u16>, entities: &mut Vec<MessageEntity>, k: usize, new: &Url)
    requires
        k < old(entities)@.len(),
        old(entities)@[k as int].offset + old(entities)@[k as int].length <= old(text)@.len(),
    ensures
        final(text)@ == spliced(
            old(text)@,
            old(entities)@[k as int].offset as int,
            old(entities)@[k as int].offset + old(entities)@[k as int].length,
            utf16(new@.text),
        ),
        entity_views(final(entities)@) == shifted(
            entity_views(old(entities)@),
            k as int,
            utf16(new@.text).len(),
        ),
{
    let units = encode_utf16(new.as_str());
    let length = units.len();
    let start = entities[k].offset;
    proof {
        assert(text.len() == text@.len());
    }
    let end = start + entities[k].length;
    shift_entities(entities, k, length);
    splice(text, start, end, units);
}

/// Visits one entity; `None` where it marks a URL that is not within the text, or its URL is too
/// long.
fn visit<R: UrlRewriter>(
    rewriter: &R,
    text: &mut Vec<u16>,
    entities: &mut Vec<MessageEntity>,
    k: usize,
) -> (effect: Option<Effect>)
    requires
        k < old(entities)@.len(),
    ensures
        final(entities)@.len() == old(entities)@.len(),
        match step(
            |url: UrlView| rewriter.rewrite(url),
            Draft {
                text: old(text)@,
                entities: entity_views(old(entities)@),
                effect: Effect::Skipped,
            },
            k as int,
        ) {
            Some(draft) => {
                &&& effect == Some(draft.effect)
                &&& final(text)@ == draft.text
                &&& entity_views(final(entities)@) == draft.entities
            },
            None => effect is None,
        },
        decision(
            |url: UrlView| rewriter.rewrite(url),
            old(text)@,
            old(entities)@[k as int]@,
        ) matches Rewrite::Replace(new) ==> effect is Some ==> can_be_reread(new) ==> is_reread(new),
{
    let ghost views = entity_views(entities@);
    proof {
        assert(views[k as int] == entities@[k as int]@);
    }
    if let MessageEntityKind::Url = entities[k].kind {
        let marked = match marked_text(text, &entities[k]) {
            Some(marked) => marked,
            None => return None,
        };
        if entities[k].length == 0 {
            return Some(Effect::Skipped);
        }
        let url = match parse_with_default_scheme(marked.as_str()) {
            Ok(url) => url,
            Err(_) => return Some(Effect::Skipped),
        };
        match rewriter.rewrite_url(&url) {
            UrlRewrite::Keep => return Some(Effect::Skipped),
            UrlRewrite::TooLong => return None,
            UrlRewrite::Replace(new) => {
                put_in_text(text, entities, k, &new);
                proof {
                    assert(entity_views(entities@).len() == views.len());
                }
                return Some(Effect::Mutated);
            },
        }
    }
    let rewrite = match &entities[k].kind {
        MessageEntityKind::TextLink { url } => rewriter.rewrite_url(url),
        _ => UrlRewrite::Keep,
    };
    match rewrite {
        UrlRewrite::Keep => Some(Effect::Skipped),
        UrlRewrite::TooLong => None,
        UrlRewrite::Replace(new) => {
            entities[k].kind = MessageEntityKind::TextLink { url: new };
            proof {
                assert(entity_views(entities@) =~= views.update(
                    k as int,
                    EntityView { kind: KindView::TextLink { url: new@ }, ..views[k as int] },
                ));
            }
            Some(Effect::Mutated)
        },
    }
}

/// A walk that ends well went well as far as each entity on the way.
pub proof fn lemma_walked_prefix(
    rewrite: spec_fn(UrlView) -> Rewrite,
    text: Seq<u16>,
    entities: Seq<EntityView>,
    part: nat,
    count: nat,
)
    requires
        part <= count,
        walked(rewrite, text, entities, count) is Some,
    ensures
        walked(rewrite, text, entities, part) is Some,
    decreases count,
{
    if part < count {
        lemma_walked_prefix(rewrite, text, entities, part, (count - 1) as nat);
    }
}

/// Visits every entity in turn: a URL in the text or in an entity is rewritten, the entities
/// after it move with the text, and the effect tells whether a URL was modified.
pub fn for_each_url_mut<R: UrlRewriter>(
    text: &mut Vec<u16>,
    entities: &mut Vec<MessageEntity>,
    rewriter: &R,
) -> (effect: Effect)
    requires
        rewritten(
            |url: UrlView| rewriter.rewrite(url),
            old(text)@,
            entity_views(old(entities)@),
        ) is Some,
    ensures
        rewritten(
            |url: UrlView| rewriter.rewrite(url),
            old(text)@,
            entity_views(old(entities)@),
        ) == Some(
            Draft { text: final(text)@, entities: entity_views(final(entities)@), effect },
        ),
        rereads(|url: UrlView| rewriter.rewrite(url), old(text)@, entity_views(old(entities)@)),
        stays_indexable(
            |url: UrlView| rewriter.rewrite(url),
            old(text)@,
            entity_views(old(entities)@),
        ),
{
    let mut effect = Effect::Skipped;
    let mut i: usize = 0;
    let ghost rewrite = |url: UrlView| rewriter.rewrite(url);
    let ghost views = entity_views(old(entities)@);
    proof {
        assert(text.len() == text@.len());
    }
    while i < entities.len()
        invariant
            i <= entities@.len(),
            entities@.len() == old(entities)@.len(),
            rewrite == (|url: UrlView| rewriter.rewrite(url)),
            views == entity_views(old(entities)@),
            rewritten(rewrite, old(text)@, views) is Some,
            walked(rewrite, old(text)@, views, i as nat) == Some(
                Draft { text: text@, entities: entity_views(entities@), effect },
            ),
            forall|k: int|
                0 <= k < i && (#[trigger] put_at(rewrite, old(text)@, views, k)) is Some ==> can_be_reread(
                    put_at(rewrite, old(text)@, views, k)->0,
                ) ==> is_reread(put_at(rewrite, old(text)@, views, k)->0),
            forall|count: nat|
                count <= i && #[trigger] walked(rewrite, old(text)@, views, count) is Some
                    ==> walked(rewrite, old(text)@, views, count)->0.text.len() <= usize::MAX,
        decreases entities@.len() - i,
    {
        proof {
            lemma_walked_prefix(rewrite, old(text)@, views, (i + 1) as nat, views.len());
        }
        if let Some(Effect::Mutated) = visit(rewriter, text, entities, i) {
            effect = Effect::Mutated;
        }
        proof {
            assert(text.len() == text@.len());
        }
        i += 1;
    }
    effect
}

/// Whether a walk can visit every entity.
pub fn can_visit_all<R: UrlRewriter>(
    text: &Vec<u16>,
    entities: &Vec<MessageEntity>,
    rewriter: &R,
) -> (possible: bool)
    ensures
        possible == (rewritten(
            |url: UrlView| rewriter.rewrite(url),
            text@,
            entity_views(entities@),
        ) is Some),
{
    let mut draft: Vec<u16> = text.clone();
    let mut marks: Vec<MessageEntity> = copy_entities(entities);
    let mut i: usize = 0;
    let ghost rewrite = |url: UrlView| rewriter.rewrite(url);
    let ghost views = entity_views(entities@);
    proof {
        assert(draft@ == text@);
        assert(entity_views(marks@).len() == views.len());
    }
    while i < marks.len()
        invariant
            i <= marks@.len(),
            marks@.len() == views.len(),
            views == entity_views(entities@),
            rewrite == (|url: UrlView| rewriter.rewrite(url)),
            walked(rewrite, text@, views, i as nat) is Some,
            walked(rewrite, text@, views, i as nat)->0.text == draft@,
            walked(rewrite, text@, views, i as nat)->0.entities == entity_views(marks@),
        decreases marks@.len() - i,
    {
        if visit(rewriter, &mut draft, &mut marks, i).is_none() {
            proof {
                assert(walked(rewrite, text@, views, (i + 1) as nat) is None);
                if rewritten(rewrite, text@, views) is Some {
                    lemma_walked_prefix(rewrite, text@, views, (i + 1) as nat, views.len());
                }
            }
            return false;
        }
        i += 1;
    }
    true
}

} // verus!
