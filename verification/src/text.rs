//! Visual width of text in terminal columns, and width-aware truncation and
//! padding for table rendering.
//!
//! The width of a string is taken as the sum of its characters' widths, so
//! truncation and padding agree with the per-character accounting that the
//! truncation cut itself uses.

use vstd::prelude::*;

verus! {

/// Display width in columns of one character, as the Unicode width tables
/// give it; `None` for control characters.
pub uninterp spec fn char_width_cols(c: char) -> Option<nat>;

/// Relies on unicode_width::UnicodeWidthChar::width: the displayed width of
/// a character in columns, a function of the character alone; its tables
/// yield only widths up to 3, and control characters get `None`.
#[verifier::external_body]
fn char_width(c: char) -> (r: Option<usize>)
    ensures
        r matches Some(w) ==> char_width_cols(c) == Some(w as nat) && w <= 3,
        r is None ==> char_width_cols(c) is None,
{
    unicode_width::UnicodeWidthChar::width(c)
}

/// Width of one character with control characters counting zero.
pub open spec fn char_cols(c: char) -> nat {
    match char_width_cols(c) {
        Some(n) => n,
        None => 0,
    }
}

/// Width in columns of a character sequence: the sum of its characters'
/// widths.
pub open spec fn str_cols(s: Seq<char>) -> nat
    decreases s.len(),
{
    if s.len() == 0 {
        0
    } else {
        str_cols(s.drop_last()) + char_cols(s.last())
    }
}

/// Width of a character, as executable code.
fn char_cols_exec(c: char) -> (r: usize)
    ensures
        r as nat == char_cols(c),
        r <= 3,
{
    match char_width(c) {
        Some(w) => w,
        None => 0,
    }
}

/// Extending a prefix by one character adds that character's width.
proof fn lemma_str_cols_snoc(s: Seq<char>, i: int)
    requires
        0 <= i < s.len(),
    ensures
        str_cols(s.subrange(0, i + 1)) == str_cols(s.subrange(0, i)) + char_cols(s[i]),
{
    let t = s.subrange(0, i + 1);
    assert(t.drop_last() =~= s.subrange(0, i));
    assert(t.last() == s[i]);
}

/// A prefix is never wider than the whole string.
proof fn lemma_str_cols_prefix_le(s: Seq<char>, i: int)
    requires
        0 <= i <= s.len(),
    ensures
        str_cols(s.subrange(0, i)) <= str_cols(s),
    decreases s.len() - i,
{
    if i == s.len() {
        assert(s.subrange(0, i) =~= s);
    } else {
        lemma_str_cols_snoc(s, i);
        lemma_str_cols_prefix_le(s, i + 1);
    }
}

/// Does the string fit within `limit` columns?
fn fits_within(s: &str, limit: usize) -> (r: bool)
    ensures
        r == (str_cols(s@) <= limit),
{
    let n = s.unicode_len();
    let mut total: usize = 0;
    let mut i: usize = 0;
    while i < n
        invariant
            n == s@.len(),
            i <= n,
            total as nat == str_cols(s@.subrange(0, i as int)),
            total <= limit,
        decreases n - i,
    {
        let w = char_cols_exec(s.get_char(i));
        proof {
            lemma_str_cols_snoc(s@, i as int);
        }
        if w > limit - total {
            proof {
                lemma_str_cols_prefix_le(s@, i + 1);
            }
            return false;
        }
        total = total + w;
        i = i + 1;
    }
    proof {
        assert(s@.subrange(0, n as int) =~= s@);
    }
    true
}

/// The truncation cut falls at `k`: everything before fits with room for an
/// ellipsis, the character at `k` no longer does.
pub open spec fn truncate_break_at(s: Seq<char>, max_width: int, k: int) -> bool {
    &&& 0 <= k < s.len()
    &&& str_cols(s.subrange(0, k)) + char_cols(s[k]) + 3 > max_width
    &&& forall|j: int|
        0 <= j < k ==> str_cols(s.subrange(0, j)) + char_cols(#[trigger] s[j]) + 3 <= max_width
}

/// Truncate a string to at most `max_width` columns.  A string that fits is
/// returned unchanged; otherwise the widest prefix that leaves room for an
/// ellipsis is kept and `"..."` appended; when even the ellipsis would not
/// fit, a prefix of the ellipsis itself is all that remains.
#[verifier::rlimit(30)]
pub fn truncate_to_width(s: &str, max_width: usize) -> (r: String)
    ensures
        str_cols(s@) <= max_width ==> r@ == s@,
        str_cols(s@) > max_width && max_width <= 3 ==> r@ == Seq::new(
            max_width as nat,
            |i: int| '.',
        ),
        str_cols(s@) > max_width && max_width > 3 ==> exists|k: int|
            #[trigger] truncate_break_at(s@, max_width as int, k) && r@ == s@.subrange(0, k)
                + "..."@,
{
    if fits_within(s, max_width) {
        return s.to_owned();
    }
    if max_width <= 3 {
        proof {
            reveal_strlit(".");
        }
        let mut out = String::new();
        let mut i: usize = 0;
        while i < max_width
            invariant
                out@ =~= Seq::new(i as nat, |t: int| '.'),
                i <= max_width,
            decreases max_width - i,
        {
            out.append(".");
            proof {
                reveal_strlit(".");
                assert(out@ =~= Seq::new((i + 1) as nat, |t: int| '.'));
            }
            i = i + 1;
        }
        return out;
    }
    let n = s.unicode_len();
    let mut current: usize = 0;
    let mut i: usize = 0;
    while i < n
        invariant
            n == s@.len(),
            i <= n,
            3 < max_width,
            current as nat == str_cols(s@.subrange(0, i as int)),
            current + 3 <= max_width,
            str_cols(s@) > max_width,
            forall|j: int|
                0 <= j < i ==> str_cols(s@.subrange(0, j)) + char_cols(#[trigger] s@[j]) + 3
                    <= max_width,
        decreases n - i,
    {
        let w = char_cols_exec(s.get_char(i));
        proof {
            lemma_str_cols_snoc(s@, i as int);
        }
        if w + 3 > max_width - current {
            let head = s.substring_char(0, i);
            let mut out = head.to_owned();
            out.append("...");
            proof {
                assert(truncate_break_at(s@, max_width as int, i as int));
            }
            return out;
        }
        current = current + w;
        i = i + 1;
    }
    proof {
        assert(s@.subrange(0, n as int) =~= s@);
        assert(false);
    }
    s.to_owned()
}

/// Pad a string with spaces on the right up to `target_width` columns; a
/// string at least that wide is returned unchanged.
pub fn pad_to_width(s: &str, target_width: usize) -> (r: String)
    ensures
        str_cols(s@) >= target_width ==> r@ == s@,
        str_cols(s@) < target_width ==> r@ == s@ + Seq::new(
            (target_width - str_cols(s@)) as nat,
            |i: int| ' ',
        ),
{
    if target_width == 0 {
        return s.to_owned();
    }
    let n = s.unicode_len();
    let mut current: usize = 0;
    let mut i: usize = 0;
    while i < n
        invariant
            n == s@.len(),
            i <= n,
            current as nat == str_cols(s@.subrange(0, i as int)),
            current < target_width,
        decreases n - i,
    {
        let w = char_cols_exec(s.get_char(i));
        proof {
            lemma_str_cols_snoc(s@, i as int);
        }
        if w >= target_width - current {
            proof {
                lemma_str_cols_prefix_le(s@, i + 1);
            }
            return s.to_owned();
        }
        current = current + w;
        i = i + 1;
    }
    proof {
        assert(s@.subrange(0, n as int) =~= s@);
        reveal_strlit(" ");
    }
    let pad = target_width - current;
    let mut out = s.to_owned();
    let mut p: usize = 0;
    while p < pad
        invariant
            p <= pad,
            out@ =~= s@ + Seq::new(p as nat, |t: int| ' '),
        decreases pad - p,
    {
        out.append(" ");
        proof {
            reveal_strlit(" ");
            assert(out@ =~= s@ + Seq::new((p + 1) as nat, |t: int| ' '));
        }
        p = p + 1;
    }
    out
}

} // verus!
