//! What holds of hosts and queries, and of texts that may lack a scheme.

use vstd::prelude::*;

use crate::address::{
    has_scheme, has_scheme_at, host_fits, host_parsed, host_written, is_left_out, is_plain_domain,
    is_scheme_char, opaque_host_parsed, parsed_with_default_scheme, query_fits,
    starts_with_scheme_in, url_parsed, without_left_out, UrlView,
};
use crate::form::lemma_first;

verus! {

proof fn lemma_none_left_out(s: Seq<char>)
    requires
        forall|i: int| 0 <= i < s.len() ==> !is_left_out(#[trigger] s[i]),
    ensures
        without_left_out(s) == s,
    decreases s.len(),
{
    reveal(Seq::filter);
    if s.len() > 0 {
        assert forall|i: int| 0 <= i < s.drop_last().len() implies !is_left_out(
            #[trigger] s.drop_last()[i],
        ) by {
            assert(s.drop_last()[i] == s[i]);
        }
        lemma_none_left_out(s.drop_last());
        assert(!is_left_out(s[s.len() - 1]));
        assert(s.drop_last().push(s.last()) =~= s);
    }
}

proof fn lemma_left_out_of_joined_texts(a: Seq<char>, b: Seq<char>)
    ensures
        without_left_out(a + b) == without_left_out(a) + without_left_out(b),
{
    Seq::filter_distributes_over_add(a, b, |c: char| !is_left_out(c));
}

/// What remains of a text is made of its characters.
proof fn lemma_remains(s: Seq<char>)
    requires
        forall|i: int| 0 <= i < s.len() ==> #[trigger] s[i] <= ' ',
    ensures
        forall|i: int|
            0 <= i < without_left_out(s).len() ==> #[trigger] without_left_out(s)[i] <= ' ',
    decreases s.len(),
{
    reveal(Seq::filter);
    if s.len() > 0 {
        assert forall|i: int| 0 <= i < s.drop_last().len() implies #[trigger] s.drop_last()[i]
            <= ' ' by {
            assert(s.drop_last()[i] == s[i]);
        }
        lemma_remains(s.drop_last());
        assert(s[s.len() - 1] <= ' ');
        let fewer = without_left_out(s.drop_last());
        assert(without_left_out(s) == fewer || without_left_out(s) == fewer.push(s.last()));
    }
}

/// Whether a text is made of control characters and spaces.
pub open spec fn is_front(s: Seq<char>) -> bool {
    forall|i: int| 0 <= i < s.len() ==> #[trigger] s[i] <= ' '
}

/// Whether a text is a letter and then letters, digits, `+`, `-` and `.`.
pub open spec fn is_scheme(s: Seq<char>) -> bool {
    &&& s.len() > 0
    &&& 'a' <= s[0] <= 'z' || 'A' <= s[0] <= 'Z'
    &&& forall|i: int|
        0 <= i < s.len() ==> 'a' <= #[trigger] s[i] <= 'z' || 'A' <= s[i] <= 'Z' || '0' <= s[i]
            <= '9' || s[i] == '+' || s[i] == '-' || s[i] == '.'
}

/// A text that starts with a scheme and `://` is read as it is, whatever follows. Control
/// characters and spaces may stand in front.
pub proof fn law_scheme_is_taken(front: Seq<char>, scheme: Seq<char>, rest: Seq<char>)
    requires
        is_front(front),
        is_scheme(scheme),
    ensures
        parsed_with_default_scheme(front + scheme + "://"@ + rest) == url_parsed(
            front + scheme + "://"@ + rest,
        ),
        has_scheme(front + scheme + "://"@ + rest),
{
    reveal_strlit("://");
    let s = front + scheme + "://"@ + rest;
    lemma_left_out_of_joined_texts(front + scheme + "://"@, rest);
    lemma_left_out_of_joined_texts(front + scheme, "://"@);
    lemma_left_out_of_joined_texts(front, scheme);
    lemma_none_left_out(scheme);
    lemma_none_left_out("://"@);
    lemma_remains(front);
    let kept = without_left_out(s);
    let start = without_left_out(front).len() as int;
    assert(kept == without_left_out(front) + scheme + "://"@ + without_left_out(rest));
    assert forall|i: int| 0 <= i < start implies #[trigger] kept[i] <= ' ' by {
        assert(kept[i] == without_left_out(front)[i]);
    }
    assert forall|i: int| start <= i < start + scheme.len() implies is_scheme_char(
        #[trigger] kept[i],
    ) by {
        assert(kept[i] == scheme[i - start]);
    }
    assert(kept[start] == scheme[0]);
    assert(has_scheme_at(kept, start, scheme.len() as int));
}

/// Whether a text is made of a front, a scheme, `://` and a rest.
pub open spec fn is_made_of(
    s: Seq<char>,
    front: Seq<char>,
    scheme: Seq<char>,
    rest: Seq<char>,
) -> bool {
    &&& s == front + scheme + "://"@ + rest
    &&& is_front(front)
    &&& is_scheme(scheme)
}

proof fn lemma_parts(s: Seq<char>, start: int, length: int)
    requires
        forall|i: int| 0 <= i < start ==> #[trigger] s[i] <= ' ',
        has_scheme_at(s, start, length),
    ensures
        is_made_of(
            s,
            s.take(start),
            s.subrange(start, start + length),
            s.skip(start + length + 3),
        ),
{
    reveal_strlit("://");
    let end = start + length;
    let front = s.take(start);
    let scheme = s.subrange(start, end);
    let rest = s.skip(end + 3);
    assert(s.subrange(end, end + 3) =~= "://"@);
    assert(s =~= front + scheme + s.subrange(end, end + 3) + rest);
    assert(is_front(front)) by {
        assert forall|i: int| 0 <= i < front.len() implies #[trigger] front[i] <= ' ' by {
            assert(front[i] == s[i]);
        }
    }
    assert(is_scheme(scheme)) by {
        assert(scheme[0] == s[start]);
        assert forall|i: int| 0 <= i < scheme.len() implies is_scheme_char(#[trigger] scheme[i]) by {
            assert(scheme[i] == s[start + i]);
        }
    }
}

/// A text is read as it is only where it starts with a scheme and `://`; any other is read with
/// `https://` in front. This is a text without tabs and ends of lines.
pub proof fn law_missing_scheme_is_https(s: Seq<char>)
    requires
        forall|i: int|
            0 <= i < s.len() ==> #[trigger] s[i] != '\t' && s[i] != '\n' && s[i] != '\r',
        forall|front: Seq<char>, scheme: Seq<char>, rest: Seq<char>|
            !#[trigger] is_made_of(s, front, scheme, rest),
    ensures
        parsed_with_default_scheme(s) == url_parsed("https://"@ + s),
        !has_scheme(s),
{
    lemma_none_left_out(s);
    if starts_with_scheme_in(s) {
        let (start, length) = choose|start: int, length: int|
            (forall|i: int| 0 <= i < start ==> #[trigger] s[i] <= ' ') && #[trigger] has_scheme_at(
                s,
                start,
                length,
            );
        lemma_parts(s, start, length);
    }
}

/// A tab or an end of a line, wherever it stands, does not decide whether a text has a scheme.
pub proof fn law_left_out_characters_do_not_count(before: Seq<char>, c: char, after: Seq<char>)
    requires
        c == '\t' || c == '\n' || c == '\r',
    ensures
        has_scheme(before + seq![c] + after) == has_scheme(before + after),
        parsed_with_default_scheme(before + seq![c] + after) == (if has_scheme(before + after) {
            url_parsed(before + seq![c] + after)
        } else {
            url_parsed("https://"@ + (before + seq![c] + after))
        }),
{
    reveal(Seq::filter);
    lemma_left_out_of_joined_texts(before + seq![c], after);
    lemma_left_out_of_joined_texts(before, seq![c]);
    lemma_left_out_of_joined_texts(before, after);
    assert(seq![c].drop_last() =~= Seq::empty());
    assert(without_left_out(seq![c].drop_last()) =~= Seq::empty());
    assert(without_left_out(seq![c]) =~= Seq::empty());
    assert(without_left_out(before + seq![c] + after) =~= without_left_out(before + after));
}

/// A host is read as a domain or an address in a URL with a special scheme, and is taken nearly as
/// it is in any other. What follows a colon does not count, and a host in brackets may hold colons.
pub proof fn law_host_is_read(special: bool, host: Seq<char>, rest: Seq<char>)
    requires
        host.len() > 0,
        forall|i: int| 0 <= i < host.len() ==> #[trigger] host[i] != ':',
        !is_plain_domain(host),
    ensures
        host[0] != '[' ==> host_written(special, host + seq![':'] + rest) == host_written(
            special,
            host,
        ),
        host_written(special, host) == (if special {
            host_parsed(host)
        } else {
            opaque_host_parsed(host)
        }),
        host_written(special, seq![':'] + rest) is None,
{
    let longer = host + seq![':'] + rest;
    lemma_first(host, ':', rest);
    assert(host.take(host.len() as int) =~= host);
    assert(longer.take(host.len() as int) =~= host);
    assert(longer[0] == host[0]);
    assert((seq![':'] + rest)[0] == ':');
}

/// A host in brackets is read whole.
pub proof fn law_bracketed_host_is_read(special: bool, inside: Seq<char>)
    ensures
        host_written(special, seq!['['] + inside + seq![']']) == (if special {
            host_parsed(seq!['['] + inside + seq![']'])
        } else {
            opaque_host_parsed(seq!['['] + inside + seq![']'])
        }),
{
    let host = seq!['['] + inside + seq![']'];
    assert(host[0] == '[' && host.last() == ']');
}

/// Another host fits into a URL where the start of its last part, moved by what the host grows, is
/// counted in 32 bits. The last part is the fragment, else the query, else the path.
pub proof fn law_hosts_fit(url: UrlView, old: Seq<char>, new: Seq<char>)
    requires
        url.host == Some(old),
    ensures
        url.fragment matches Some(fragment) ==> (host_fits(url, new) <==> url.text.len()
            - fragment.len() - 1 - old.len() + new.len() < 0x1_0000_0000),
        url.fragment is None ==> (url.query matches Some(query) ==> (host_fits(url, new)
            <==> url.text.len() - query.len() - 1 - old.len() + new.len() < 0x1_0000_0000)),
        url.fragment is None && url.query is None ==> (host_fits(url, new) <==> url.text.len()
            - url.path.len() - old.len() + new.len() < 0x1_0000_0000),
{
}

/// Another query fits into a URL where its start is counted in 32 bits, and the start of the
/// fragment behind it, if there is one.
pub proof fn law_queries_fit(url: UrlView, new: Option<Seq<char>>)
    ensures
        ({
            let dropped = match url.query {
                Some(query) => query.len() + 1,
                None => 0,
            };
            let added = match new {
                Some(query) => query.len() + 1,
                None => 0,
            };
            &&& url.fragment matches Some(fragment) ==> (query_fits(url, new) <==> url.text.len()
                - fragment.len() - 1 - dropped + added < 0x1_0000_0000)
            &&& url.fragment is None && new is Some ==> (query_fits(url, new) <==> url.text.len()
                - dropped < 0x1_0000_0000)
            &&& url.fragment is None && new is None ==> query_fits(url, new)
        }),
{
}

} // verus!
