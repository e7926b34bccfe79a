//! Case-insensitive filtering of the owned-key listing by author and/or
//! title.  Both filters are optional and independent; the filter is stable:
//! kept entries stay in their original relative order.

use crate::casefold::ci_contains;
use crate::casefold::contains_ci;
use crate::catalog::OwnedKey;
use vstd::prelude::*;

verus! {

/// View of an optional query string.
pub open spec fn opt_view(o: Option<String>) -> Option<Seq<char>> {
    match o {
        Some(s) => Some(s@),
        None => None,
    }
}

/// The author query matches the key's owner: against the username, or
/// against the display name when one is present.
pub open spec fn author_query_matches(k: OwnedKey, q: Seq<char>) -> bool {
    ||| ci_contains(k.game.user.username@, q)
    ||| match k.game.user.display_name {
        Some(d) => ci_contains(d@, q),
        None => false,
    }
}

/// The title query matches the key's game title.
pub open spec fn title_query_matches(k: OwnedKey, q: Seq<char>) -> bool {
    ci_contains(k.game.title@, q)
}

/// A key passes every query that was supplied; an absent query excludes
/// nothing.
pub open spec fn key_matches(k: OwnedKey, author: Option<Seq<char>>, title: Option<
    Seq<char>,
>) -> bool {
    &&& (author matches Some(q) ==> author_query_matches(k, q))
    &&& (title matches Some(q) ==> title_query_matches(k, q))
}

/// The filtered listing: exactly the matching keys, in their original order.
pub open spec fn spec_filter_keys(keys: Seq<OwnedKey>, author: Option<Seq<char>>, title: Option<
    Seq<char>,
>) -> Seq<OwnedKey> {
    keys.filter(|k: OwnedKey| key_matches(k, author, title))
}

/// Does this key pass the supplied queries?
pub fn key_matches_exec(k: &OwnedKey, author: &Option<String>, title: &Option<String>) -> (r: bool)
    ensures
        r == key_matches(*k, opt_view(*author), opt_view(*title)),
{
    let am = match author {
        Some(q) => {
            if contains_ci(k.game.user.username.as_str(), q.as_str()) {
                true
            } else {
                match &k.game.user.display_name {
                    Some(d) => contains_ci(d.as_str(), q.as_str()),
                    None => false,
                }
            }
        },
        None => true,
    };
    let tm = match title {
        Some(q) => contains_ci(k.game.title.as_str(), q.as_str()),
        None => true,
    };
    am && tm
}

/// Keeps exactly the keys that pass the supplied queries, in their original
/// relative order (a stable filter, not a sort); with no query the listing
/// comes back unchanged.
pub fn filter_keys(keys: Vec<OwnedKey>, author: &Option<String>, title: &Option<String>) -> (r: Vec<
    OwnedKey,
>)
    ensures
        r@ == spec_filter_keys(keys@, opt_view(*author), opt_view(*title)),
{
    let ghost orig = keys@;
    let ghost a = opt_view(*author);
    let ghost t = opt_view(*title);
    let ghost pred = |k: OwnedKey| key_matches(k, a, t);
    let n_total = keys.len();
    let mut rest = keys;
    let mut out: Vec<OwnedKey> = Vec::new();
    let mut i: usize = 0;
    while rest.len() > 0
        invariant
            n_total == orig.len(),
            i <= orig.len(),
            rest@ =~= orig.subrange(i as int, orig.len() as int),
            out@ == orig.subrange(0, i as int).filter(pred),
            a == opt_view(*author),
            t == opt_view(*title),
            pred == (|k: OwnedKey| key_matches(k, a, t)),
        decreases rest@.len(),
    {
        let k = rest.remove(0);
        assert(k == orig[i as int]);
        let keep = key_matches_exec(&k, author, title);
        proof {
            let pre = orig.subrange(0, i as int);
            let pre1 = orig.subrange(0, i + 1);
            assert(pre1.drop_last() =~= pre);
            assert(pre1.last() == orig[i as int]);
            reveal_with_fuel(Seq::filter, 2);
        }
        if keep {
            out.push(k);
        }
        i = i + 1;
    }
    proof {
        assert(orig.subrange(0, orig.len() as int) =~= orig);
    }
    out
}

/// The filtered listing holds only matching keys, never more keys than it
/// was given, and keeps every matching key it was given.
pub proof fn lemma_filter_members(keys: Seq<OwnedKey>, a: Option<Seq<char>>, t: Option<Seq<char>>)
    ensures
        forall|i: int|
            0 <= i < spec_filter_keys(keys, a, t).len() ==> key_matches(
                #[trigger] spec_filter_keys(keys, a, t)[i],
                a,
                t,
            ),
        spec_filter_keys(keys, a, t).len() <= keys.len(),
        forall|i: int|
            0 <= i < keys.len() && key_matches(#[trigger] keys[i], a, t) ==> spec_filter_keys(
                keys,
                a,
                t,
            ).contains(keys[i]),
{
    let pred = |k: OwnedKey| key_matches(k, a, t);
    keys.filter_lemma(pred);
}

/// With no query at all, filtering is the identity: same elements, same
/// order.
pub proof fn lemma_filter_no_query(keys: Seq<OwnedKey>)
    ensures
        spec_filter_keys(keys, None, None) == keys,
    decreases keys.len(),
{
    reveal_with_fuel(Seq::filter, 2);
    if keys.len() == 0 {
        assert(spec_filter_keys(keys, None, None) =~= keys);
    } else {
        lemma_filter_no_query(keys.drop_last());
        assert(keys.drop_last().push(keys.last()) =~= keys);
    }
}

/// A key that does not match contributes nothing: filtering skips it and
/// goes on with the rest.
proof fn lemma_filter_drop_first(keys: Seq<OwnedKey>, a: Option<Seq<char>>, t: Option<Seq<char>>)
    requires
        keys.len() > 0,
        !key_matches(keys[0], a, t),
    ensures
        spec_filter_keys(keys, a, t) == spec_filter_keys(keys.drop_first(), a, t),
    decreases keys.len(),
{
    reveal_with_fuel(Seq::filter, 2);
    let pred = |k: OwnedKey| key_matches(k, a, t);
    if keys.len() == 1 {
        assert(keys.drop_last() =~= Seq::<OwnedKey>::empty());
        assert(keys.drop_first() =~= Seq::<OwnedKey>::empty());
        assert(keys.last() == keys[0]);
    } else {
        let head = keys.drop_last();
        assert(head[0] == keys[0]);
        lemma_filter_drop_first(head, a, t);
        assert(head.drop_first() =~= keys.drop_first().drop_last());
        assert(keys.drop_first().last() == keys.last());
    }
}

/// Filter stability: a leading stretch in which no key matches contributes
/// nothing, so the result is exactly the filtered remainder — the relative
/// order of the surviving keys is untouched.
pub proof fn lemma_filter_skip_prefix(
    keys: Seq<OwnedKey>,
    a: Option<Seq<char>>,
    t: Option<Seq<char>>,
    k: int,
)
    requires
        0 <= k <= keys.len(),
        forall|i: int| 0 <= i < k ==> !key_matches(#[trigger] keys[i], a, t),
    ensures
        spec_filter_keys(keys, a, t) == spec_filter_keys(keys.skip(k), a, t),
    decreases k,
{
    if k == 0 {
        assert(keys.skip(0) =~= keys);
    } else {
        lemma_filter_drop_first(keys, a, t);
        lemma_filter_skip_prefix(keys.drop_first(), a, t, k - 1);
        assert(keys.drop_first().skip(k - 1) =~= keys.skip(k));
    }
}

} // verus!
