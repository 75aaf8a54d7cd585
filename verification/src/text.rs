//! Strings as sequences of characters: the small vocabulary that the rest of
//! the interpreter is stated in.

use vstd::prelude::*;

verus! {

/// `parts` written one after another, with `sep` between each two neighbours.
pub open spec fn joined(parts: Seq<Seq<char>>, sep: Seq<char>) -> Seq<char>
    decreases parts.len(),
{
    if parts.len() == 0 {
        Seq::empty()
    } else if parts.len() == 1 {
        parts[0]
    } else {
        parts[0] + sep + joined(parts.drop_first(), sep)
    }
}

/// Appending one more part appends the separator and the part, except after
/// nothing at all.
pub proof fn lemma_joined_push(parts: Seq<Seq<char>>, last: Seq<char>, sep: Seq<char>)
    ensures
        joined(parts.push(last), sep) == if parts.len() == 0 {
            last
        } else {
            joined(parts, sep) + sep + last
        },
    decreases parts.len(),
{
    let all = parts.push(last);
    if parts.len() == 0 {
        assert(all[0] == last);
    } else {
        let rest = parts.drop_first();
        assert(all.drop_first() =~= rest.push(last));
        lemma_joined_push(rest, last, sep);
        if rest.len() == 0 {
            assert(joined(parts, sep) == parts[0]);
        } else {
            assert(joined(all, sep) =~= parts[0] + sep + (joined(rest, sep) + sep + last));
            assert(joined(parts, sep) + sep + last =~= parts[0] + sep + (joined(rest, sep) + sep
                + last));
        }
    }
}

/// How many characters stand before the first `sep` of `s`.
pub open spec fn field_len(s: Seq<char>, sep: char) -> nat
    decreases s.len(),
{
    if s.len() > 0 && s[0] != sep {
        1 + field_len(s.drop_first(), sep)
    } else {
        0
    }
}

/// The fields of `s`: what stands before, between and after its
/// occurrences of `sep`. There is always one field more than there are
/// separators, so an empty `s` has one empty field.
pub open spec fn split_on(s: Seq<char>, sep: char) -> Seq<Seq<char>>
    decreases s.len(),
    via split_on_decreases
{
    let n = field_len(s, sep) as int;
    if n >= s.len() {
        seq![s]
    } else {
        seq![s.take(n)] + split_on(s.skip(n + 1), sep)
    }
}

#[via_fn]
proof fn split_on_decreases(s: Seq<char>, sep: char) {
    lemma_field_len(s, sep);
}

/// `field_len(s, sep)` is the place of the first `sep` in `s`, or the length
/// of `s` where there is none.
pub proof fn lemma_field_len(s: Seq<char>, sep: char)
    ensures
        field_len(s, sep) <= s.len(),
        forall|i: int| 0 <= i < field_len(s, sep) ==> #[trigger] s[i] != sep,
        field_len(s, sep) < s.len() ==> s[field_len(s, sep) as int] == sep,
    decreases s.len(),
{
    if s.len() > 0 && s[0] != sep {
        let rest = s.drop_first();
        lemma_field_len(rest, sep);
        assert forall|i: int| 0 <= i < field_len(s, sep) implies #[trigger] s[i] != sep by {
            if i > 0 {
                assert(s[i] == rest[i - 1]);
            }
        }
    }
}

/// A run of `k` characters other than `sep`, ending at the end of `s` or
/// before a `sep`, is the first field's extent.
pub proof fn lemma_field_len_is(s: Seq<char>, sep: char, k: int)
    requires
        0 <= k <= s.len(),
        forall|i: int| 0 <= i < k ==> #[trigger] s[i] != sep,
        k < s.len() ==> s[k] == sep,
    ensures
        field_len(s, sep) == k,
    decreases k,
{
    if k > 0 {
        let rest = s.drop_first();
        assert forall|i: int| 0 <= i < k - 1 implies #[trigger] rest[i] != sep by {
            assert(rest[i] == s[i + 1]);
        }
        lemma_field_len_is(rest, sep, k - 1);
    }
}

/// Splitting loses nothing: the fields joined by the separator are the
/// text that was split.
pub proof fn lemma_split_then_join(s: Seq<char>, sep: char)
    ensures
        joined(split_on(s, sep), seq![sep]) == s,
    decreases s.len(),
{
    lemma_field_len(s, sep);
    let n = field_len(s, sep) as int;
    if n < s.len() {
        let rest = s.skip(n + 1);
        lemma_split_then_join(rest, sep);
        let fields = split_on(s, sep);
        assert(fields.drop_first() =~= split_on(rest, sep));
        assert(fields[0] == s.take(n));
        assert(s.take(n) + seq![sep] + rest =~= s);
    }
}

/// The characters of `s`, in a vector.
pub fn chars_of(s: &str) -> (chars: Vec<char>)
    ensures
        chars@ == s@,
{
    let mut chars: Vec<char> = Vec::new();
    for c in it: s.chars()
        invariant
            it.seq() == s@,
            chars@ == it.seq().take(it.index() as int),
    {
        chars.push(c);
    }
    chars
}

/// Whether two strings hold the same characters.
pub fn same_text(a: &str, b: &str) -> (same: bool)
    ensures
        same == (a@ == b@),
{
    let left = chars_of(a);
    let right = chars_of(b);
    if left.len() != right.len() {
        return false;
    }
    let mut i: usize = 0;
    while i < left.len()
        invariant
            i <= left.len(),
            left.len() == right.len(),
            left@ == a@,
            right@ == b@,
            forall|k: int| 0 <= k < i ==> left@[k] == right@[k],
        decreases left.len() - i,
    {
        if left[i] != right[i] {
            return false;
        }
        i += 1;
    }
    assert(left@ =~= right@);
    true
}

/// Whether one of `items` holds the characters of `wanted`.
pub fn contains_text(items: &[String], wanted: &str) -> (found: bool)
    ensures
        found == items.deep_view().contains(wanted@),
{
    let mut i: usize = 0;
    while i < items.len()
        invariant
            i <= items.len(),
            forall|k: int| 0 <= k < i ==> items.deep_view()[k] != wanted@,
        decreases items.len() - i,
    {
        if same_text(items[i].as_str(), wanted) {
            assert(items.deep_view()[i as int] == wanted@);
            return true;
        }
        i += 1;
    }
    false
}

/// Cuts `s` at every `sep`.
pub fn split(s: &str, sep: char) -> (fields: Vec<String>)
    ensures
        fields.deep_view() == split_on(s@, sep),
{
    let chars = chars_of(s);
    let n = chars.len();
    let mut fields: Vec<String> = Vec::new();
    let mut start: usize = 0;
    let mut i: usize = 0;
    assert(s@.skip(0) =~= s@);
    assert(fields.deep_view() + split_on(s@, sep) =~= split_on(s@, sep));
    while i < n
        invariant
            start <= i <= n,
            n == chars.len(),
            chars@ == s@,
            forall|k: int| start <= k < i ==> #[trigger] chars@[k] != sep,
            split_on(s@, sep) == fields.deep_view() + split_on(s@.skip(start as int), sep),
        decreases n - i,
    {
        if chars[i] == sep {
            let field = s.substring_char(start, i).to_owned();
            proof {
                let rest = s@.skip(start as int);
                let k = i - start;
                assert forall|j: int| 0 <= j < k implies #[trigger] rest[j] != sep by {
                    assert(rest[j] == chars@[start + j]);
                }
                assert(rest[k] == chars@[i as int]);
                lemma_field_len_is(rest, sep, k);
                assert(rest.take(k) =~= field@);
                assert(rest.skip(k + 1) =~= s@.skip(i + 1));
                assert(fields.deep_view().push(field@) =~= fields.deep_view() + seq![field@]);
            }
            let ghost before = fields.deep_view();
            fields.push(field);
            assert(fields.deep_view() =~= before.push(field@));
            start = i + 1;
        }
        i += 1;
    }
    let last = s.substring_char(start, n).to_owned();
    proof {
        let rest = s@.skip(start as int);
        assert forall|j: int| 0 <= j < rest.len() implies #[trigger] rest[j] != sep by {
            assert(rest[j] == chars@[start + j]);
        }
        lemma_field_len_is(rest, sep, rest.len() as int);
        assert(rest =~= last@);
        assert(fields.deep_view().push(last@) =~= fields.deep_view() + seq![last@]);
    }
    let ghost before = fields.deep_view();
    fields.push(last);
    assert(fields.deep_view() =~= before.push(last@));
    fields
}

/// A vector that holds copies of `items`, in order.
pub fn copy_all(items: &[String]) -> (copies: Vec<String>)
    ensures
        copies.deep_view() == items.deep_view(),
{
    let mut copies: Vec<String> = Vec::new();
    let mut i: usize = 0;
    while i < items.len()
        invariant
            i <= items.len(),
            copies.deep_view() == items.deep_view().take(i as int),
        decreases items.len() - i,
    {
        let ghost before = copies.deep_view();
        let item = items[i].clone();
        copies.push(item);
        assert(copies.deep_view() =~= before.push(items[i as int]@));
        assert(items.deep_view().take(i + 1) =~= before.push(items[i as int]@));
        i += 1;
    }
    assert(items.deep_view().take(i as int) =~= items.deep_view());
    copies
}

/// Joins `parts` with `sep` between each two neighbours.
pub fn join(parts: &[String], sep: &str) -> (line: String)
    ensures
        line@ == joined(parts.deep_view(), sep@),
{
    let mut line = String::new();
    let mut i: usize = 0;
    while i < parts.len()
        invariant
            i <= parts.len(),
            line@ == joined(parts.deep_view().take(i as int), sep@),
        decreases parts.len() - i,
    {
        proof {
            let done = parts.deep_view().take(i as int);
            assert(parts.deep_view().take(i + 1) =~= done.push(parts[i as int]@));
            lemma_joined_push(done, parts[i as int]@, sep@);
        }
        if i > 0 {
            line.append(sep);
        }
        line.append(parts[i].as_str());
        i += 1;
    }
    assert(parts.deep_view().take(i as int) =~= parts.deep_view());
    line
}

} // verus!
