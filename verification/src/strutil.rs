//! String utilities shared by the registry and the renderers: lexicographic
//! comparison on character sequences, padding, and decimal formatting.

use vstd::prelude::*;

verus! {

/// Relies on `String::push` from std: it appends the given character to
/// the end of the string. vstd gives this method no specification.
pub assume_specification[ String::push ](s: &mut String, c: char)
    ensures
        final(s)@ == old(s)@.push(c),
;

/// Lexicographic "strictly less" on character sequences, ordered by Unicode
/// scalar value. This coincides with Rust's byte-wise ordering on UTF-8
/// strings, since UTF-8 encoding preserves scalar order.
pub open spec fn lex_lt(a: Seq<char>, b: Seq<char>) -> bool
    decreases a.len(),
{
    if b.len() == 0 {
        false
    } else if a.len() == 0 {
        true
    } else if (a[0] as u32) < (b[0] as u32) {
        true
    } else if a[0] == b[0] {
        lex_lt(a.drop_first(), b.drop_first())
    } else {
        false
    }
}

/// Lexicographic "less or equal" on character sequences.
pub open spec fn lex_le(a: Seq<char>, b: Seq<char>) -> bool {
    lex_lt(a, b) || a == b
}

/// Comparing two sequences that agree on a common prefix reduces to
/// comparing the remainders.
proof fn lemma_lex_lt_skip(a: Seq<char>, b: Seq<char>, i: int)
    requires
        0 <= i <= a.len(),
        i <= b.len(),
        forall|j: int| 0 <= j < i ==> a[j] == b[j],
    ensures
        lex_lt(a, b) == lex_lt(a.skip(i), b.skip(i)),
    decreases i,
{
    if i > 0 {
        assert(a.len() > 0 && b.len() > 0);
        assert(a[0] == b[0]);
        assert(!((a[0] as u32) < (b[0] as u32)));
        lemma_lex_lt_skip(a.drop_first(), b.drop_first(), i - 1);
        assert(a.drop_first().skip(i - 1) =~= a.skip(i));
        assert(b.drop_first().skip(i - 1) =~= b.skip(i));
    } else {
        assert(a.skip(0) =~= a);
        assert(b.skip(0) =~= b);
    }
}

/// The lexicographic order is total: of two distinct sequences one is
/// strictly below the other.
pub proof fn lemma_lex_total(a: Seq<char>, b: Seq<char>)
    ensures
        lex_lt(a, b) || lex_lt(b, a) || a == b,
    decreases a.len(),
{
    if a.len() > 0 && b.len() > 0 {
        if a[0] != b[0] {
            assert((a[0] as u32) != (b[0] as u32)) by {
                vstd::utf8::char_u32_cast(a[0], a[0] as u32);
                vstd::utf8::char_u32_cast(b[0], b[0] as u32);
            }
            assert(lex_lt(a, b) || lex_lt(b, a));
        } else {
            lemma_lex_total(a.drop_first(), b.drop_first());
            if a.drop_first() == b.drop_first() {
                assert(a.drop_first().len() == b.drop_first().len());
                assert(a.len() == b.len());
                assert forall|j: int| 0 <= j < a.len() implies a[j] == b[j] by {
                    if j > 0 {
                        assert(a[j] == a.drop_first()[j - 1]);
                        assert(b[j] == b.drop_first()[j - 1]);
                    }
                }
                assert(a =~= b);
            }
        }
    } else if a.len() == 0 && b.len() == 0 {
        assert(a =~= b);
    }
}

/// The order is transitive.
pub proof fn lemma_lex_lt_trans(a: Seq<char>, b: Seq<char>, c: Seq<char>)
    requires
        lex_lt(a, b),
        lex_lt(b, c),
    ensures
        lex_lt(a, c),
    decreases a.len(),
{
    if a.len() > 0 && b.len() > 0 && c.len() > 0 {
        if a[0] == b[0] && b[0] == c[0] {
            lemma_lex_lt_trans(a.drop_first(), b.drop_first(), c.drop_first());
        }
    }
}

/// The reflexive order is transitive as well.
pub proof fn lemma_lex_le_trans(a: Seq<char>, b: Seq<char>, c: Seq<char>)
    requires
        lex_le(a, b),
        lex_le(b, c),
    ensures
        lex_le(a, c),
{
    if lex_lt(a, b) && lex_lt(b, c) {
        lemma_lex_lt_trans(a, b, c);
    }
}

/// Strict order excludes equality.
pub proof fn lemma_lex_lt_irrefl(a: Seq<char>)
    ensures
        !lex_lt(a, a),
    decreases a.len(),
{
    if a.len() > 0 {
        lemma_lex_lt_irrefl(a.drop_first());
    }
}

/// Decides `lex_lt(a@, b@)` for two string slices.
pub fn str_lt(a: &str, b: &str) -> (r: bool)
    ensures
        r == lex_lt(a@, b@),
{
    let a_len = a.unicode_len();
    let b_len = b.unicode_len();
    let mut i: usize = 0;
    loop
        invariant
            0 <= i <= a_len,
            i <= b_len,
            a_len == a@.len(),
            b_len == b@.len(),
            forall|j: int| 0 <= j < i ==> a@[j] == b@[j],
        decreases a_len - i,
    {
        if i == a_len || i == b_len {
            proof {
                lemma_lex_lt_skip(a@, b@, i as int);
            }
            return a_len < b_len;
        }
        let ca = a.get_char(i);
        let cb = b.get_char(i);
        if ca as u32 != cb as u32 {
            proof {
                lemma_lex_lt_skip(a@, b@, i as int);
                assert(lex_lt(a@.skip(i as int), b@.skip(i as int)) == ((ca as u32) < (cb as u32)));
            }
            return (ca as u32) < (cb as u32);
        }
        i = i + 1;
    }
}

/// Two sequences that agree on a prefix of length `i` are equal exactly
/// when the remainders are equal.
proof fn lemma_prefix_eq(a: Seq<char>, b: Seq<char>, i: int)
    requires
        0 <= i <= a.len(),
        i <= b.len(),
        forall|j: int| 0 <= j < i ==> a[j] == b[j],
    ensures
        (a == b) <==> (a.skip(i) == b.skip(i)),
{
    if a.skip(i) == b.skip(i) {
        assert(a.skip(i).len() == b.skip(i).len());
        assert(a =~= b) by {
            assert forall|j: int| 0 <= j < a.len() implies a[j] == b[j] by {
                if j >= i {
                    assert(a.skip(i)[j - i] == b.skip(i)[j - i]);
                }
            }
        }
    }
}

/// Decides `lex_le(a@, b@)` for two string slices.
pub fn str_le(a: &str, b: &str) -> (r: bool)
    ensures
        r == lex_le(a@, b@),
{
    let a_len = a.unicode_len();
    let b_len = b.unicode_len();
    let mut i: usize = 0;
    loop
        invariant
            0 <= i <= a_len,
            i <= b_len,
            a_len == a@.len(),
            b_len == b@.len(),
            forall|j: int| 0 <= j < i ==> a@[j] == b@[j],
        decreases a_len - i,
    {
        if i == a_len || i == b_len {
            proof {
                lemma_lex_lt_skip(a@, b@, i as int);
                lemma_prefix_eq(a@, b@, i as int);
                if a_len == b_len {
                    assert(a@.skip(i as int) =~= b@.skip(i as int));
                }
            }
            return a_len <= b_len;
        }
        let ca = a.get_char(i);
        let cb = b.get_char(i);
        if ca as u32 != cb as u32 {
            proof {
                lemma_lex_lt_skip(a@, b@, i as int);
                lemma_prefix_eq(a@, b@, i as int);
                assert(a@.skip(i as int)[0] == ca && b@.skip(i as int)[0] == cb);
            }
            return (ca as u32) < (cb as u32);
        }
        i = i + 1;
    }
}

/// Decides whether two string slices hold the same characters.
pub fn str_eq(a: &str, b: &str) -> (r: bool)
    ensures
        r == (a@ == b@),
{
    let a_len = a.unicode_len();
    let b_len = b.unicode_len();
    if a_len != b_len {
        return false;
    }
    let mut i: usize = 0;
    while i < a_len
        invariant
            0 <= i <= a_len,
            a_len == a@.len() == b@.len(),
            forall|j: int| 0 <= j < i ==> a@[j] == b@[j],
        decreases a_len - i,
    {
        let ca = a.get_char(i);
        let cb = b.get_char(i);
        if ca as u32 != cb as u32 {
            return false;
        }
        i = i + 1;
    }
    proof {
        assert(a@ =~= b@);
    }
    true
}

/// The position of the first occurrence of `c` in `s`, or the length of
/// `s` when `c` does not occur.
pub open spec fn spec_find_char(s: Seq<char>, c: char) -> int
    decreases s.len(),
{
    if s.len() == 0 {
        0
    } else if s[0] == c {
        0
    } else {
        1 + spec_find_char(s.drop_first(), c)
    }
}

/// The found position is in bounds, the character stands there if it
/// occurs at all, and nothing before it is `c`.
pub proof fn lemma_find_char(s: Seq<char>, c: char)
    ensures
        0 <= spec_find_char(s, c) <= s.len(),
        spec_find_char(s, c) < s.len() ==> s[spec_find_char(s, c)] == c,
        forall|j: int| 0 <= j < spec_find_char(s, c) ==> s[j] != c,
    decreases s.len(),
{
    if s.len() > 0 && s[0] != c {
        lemma_find_char(s.drop_first(), c);
        assert forall|j: int| 0 <= j < spec_find_char(s, c) implies s[j] != c by {
            if j > 0 {
                assert(s.drop_first()[j - 1] != c);
            }
        }
    }
}

/// Finds the first occurrence of `c` in `s`.
pub fn find_char(s: &str, c: char) -> (r: usize)
    ensures
        r == spec_find_char(s@, c),
{
    let len = s.unicode_len();
    proof {
        assert(s@.skip(0) =~= s@);
    }
    let mut i: usize = 0;
    loop
        invariant
            0 <= i <= len,
            len == s@.len(),
            spec_find_char(s@, c) == i + spec_find_char(s@.skip(i as int), c),
            forall|j: int| 0 <= j < i ==> s@[j] != c,
        decreases len - i,
    {
        proof {
            if i < len {
                assert(s@.skip(i as int)[0] == s@[i as int]);
                assert(s@.skip(i as int).drop_first() =~= s@.skip(i + 1));
            }
        }
        if i == len {
            proof {
                assert(s@.skip(i as int) =~= Seq::<char>::empty());
            }
            return i;
        }
        let ch = s.get_char(i);
        if ch as u32 == c as u32 {
            proof {
                vstd::utf8::char_u32_cast(ch, ch as u32);
                vstd::utf8::char_u32_cast(c, c as u32);
            }
            return i;
        }
        proof {
            vstd::utf8::char_u32_cast(ch, ch as u32);
            vstd::utf8::char_u32_cast(c, c as u32);
        }
        i = i + 1;
    }
}

/// A spelling seen as its characters.
pub open spec fn string_view() -> spec_fn(String) -> Seq<char> {
    |s: String| s@
}

/// The sequences joined with ", " between each pair.
pub open spec fn spec_comma_views(s: Seq<Seq<char>>) -> Seq<char>
    decreases s.len(),
{
    if s.len() == 0 {
        Seq::empty()
    } else if s.len() == 1 {
        s[0]
    } else {
        spec_comma_views(s.drop_last()) + ", "@ + s.last()
    }
}

/// Whether a spelling occurs in the list.
pub fn contains_str(list: &Vec<String>, s: &str) -> (r: bool)
    ensures
        r == list@.map_values(string_view()).contains(s@),
{
    let ghost views = list@.map_values(string_view());
    let mut j: usize = 0;
    while j < list.len()
        invariant
            views == list@.map_values(string_view()),
            views.len() == list@.len(),
            0 <= j <= list@.len(),
            forall|m: int| 0 <= m < j ==> #[trigger] views[m] != s@,
        decreases list@.len() - j,
    {
        proof {
            assert(views[j as int] == list@[j as int]@);
        }
        if str_eq(list[j].as_str(), s) {
            proof {
                assert(views[j as int] == s@);
            }
            return true;
        }
        j = j + 1;
    }
    proof {
        if views.contains(s@) {
            let w = choose|m: int| 0 <= m < views.len() && views[m] == s@;
            assert(views[w] == s@);
        }
    }
    false
}

/// A run of `n` spaces.
pub open spec fn spec_spaces(n: int) -> Seq<char> {
    Seq::new(n as nat, |i: int| ' ')
}

/// Builds a string of `n` spaces.
pub fn spaces(n: usize) -> (r: String)
    ensures
        r@ == spec_spaces(n as int),
{
    let mut s = String::new();
    let mut i: usize = 0;
    while i < n
        invariant
            0 <= i <= n,
            s@ =~= spec_spaces(i as int),
        decreases n - i,
    {
        s.push(' ');
        i = i + 1;
        proof {
            assert(s@ =~= spec_spaces(i as int));
        }
    }
    s
}

/// The decimal digit character for a value below ten.
pub open spec fn spec_digit(d: int) -> char {
    if d == 0 { '0' }
    else if d == 1 { '1' }
    else if d == 2 { '2' }
    else if d == 3 { '3' }
    else if d == 4 { '4' }
    else if d == 5 { '5' }
    else if d == 6 { '6' }
    else if d == 7 { '7' }
    else if d == 8 { '8' }
    else { '9' }
}

/// Usual decimal notation of a non-negative integer, most significant
/// digit first.
pub open spec fn spec_decimal(n: int) -> Seq<char>
    decreases n,
{
    if n <= 9 {
        seq![spec_digit(n)]
    } else {
        spec_decimal(n / 10).push(spec_digit(n % 10))
    }
}

/// Renders a machine integer in decimal.
pub fn decimal(n: u64) -> (r: String)
    ensures
        r@ == spec_decimal(n as int),
    decreases n,
{
    if n <= 9 {
        let mut s = String::new();
        let d = digit_char(n as u8);
        s.push(d);
        proof {
            assert(s@ =~= seq![spec_digit(n as int)]);
        }
        s
    } else {
        let mut s = decimal(n / 10);
        let d = digit_char((n % 10) as u8);
        s.push(d);
        proof {
            assert(s@ =~= spec_decimal(n as int));
        }
        s
    }
}

fn digit_char(d: u8) -> (c: char)
    requires
        d <= 9,
    ensures
        c == spec_digit(d as int),
{
    if d == 0 { '0' }
    else if d == 1 { '1' }
    else if d == 2 { '2' }
    else if d == 3 { '3' }
    else if d == 4 { '4' }
    else if d == 5 { '5' }
    else if d == 6 { '6' }
    else if d == 7 { '7' }
    else if d == 8 { '8' }
    else { '9' }
}

/// Insertion into a sorted list of character sequences without
/// duplicates: a present value leaves the list unchanged.
pub open spec fn spec_insert_unique(s: Seq<Seq<char>>, k: Seq<char>) -> Seq<Seq<char>>
    decreases s.len(),
{
    if s.len() == 0 {
        seq![k]
    } else if lex_lt(k, s[0]) {
        seq![k] + s
    } else if k == s[0] {
        s
    } else {
        seq![s[0]] + spec_insert_unique(s.drop_first(), k)
    }
}

/// The sorted set of the given character sequences.
pub open spec fn spec_sort_unique(s: Seq<Seq<char>>) -> Seq<Seq<char>>
    decreases s.len(),
{
    if s.len() == 0 {
        Seq::empty()
    } else {
        spec_insert_unique(spec_sort_unique(s.drop_last()), s.last())
    }
}

proof fn lemma_insert_unique_at(s: Seq<Seq<char>>, k: Seq<char>, j: int)
    requires
        0 <= j <= s.len(),
        forall|m: int| 0 <= m < j ==> lex_lt(#[trigger] s[m], k),
        j < s.len() ==> lex_lt(k, s[j]),
    ensures
        spec_insert_unique(s, k) == s.take(j) + seq![k] + s.skip(j),
    decreases j,
{
    if j == 0 {
        assert(spec_insert_unique(s, k) =~= s.take(0) + seq![k] + s.skip(0));
    } else {
        assert(lex_lt(s[0], k));
        if lex_lt(k, s[0]) {
            lemma_lex_lt_trans(s[0], k, s[0]);
            lemma_lex_lt_irrefl(s[0]);
        }
        if k == s[0] {
            lemma_lex_lt_irrefl(s[0]);
        }
        lemma_insert_unique_at(s.drop_first(), k, j - 1);
        assert(s.drop_first().take(j - 1) =~= s.take(j).drop_first());
        assert(s.drop_first().skip(j - 1) =~= s.skip(j));
        assert(seq![s[0]] + spec_insert_unique(s.drop_first(), k) =~= s.take(j) + seq![k] + s.skip(
            j,
        ));
    }
}

proof fn lemma_insert_unique_found(s: Seq<Seq<char>>, k: Seq<char>, j: int)
    requires
        0 <= j < s.len(),
        forall|m: int| 0 <= m < j ==> lex_lt(#[trigger] s[m], k),
        s[j] == k,
    ensures
        spec_insert_unique(s, k) == s,
    decreases j,
{
    if j == 0 {
        if lex_lt(k, s[0]) {
            lemma_lex_lt_irrefl(s[0]);
        }
    } else {
        assert(lex_lt(s[0], k));
        if lex_lt(k, s[0]) {
            lemma_lex_lt_trans(s[0], k, s[0]);
            lemma_lex_lt_irrefl(s[0]);
        }
        if k == s[0] {
            lemma_lex_lt_irrefl(s[0]);
        }
        lemma_insert_unique_found(s.drop_first(), k, j - 1);
        assert(seq![s[0]] + s.drop_first() =~= s);
    }
}

/// Inserts a value into the sorted duplicate-free list.
fn insert_unique(list: &mut Vec<String>, k: String)
    ensures
        final(list)@.map_values(string_view()) == spec_insert_unique(
            old(list)@.map_values(string_view()),
            k@,
        ),
{
    let ghost views = list@.map_values(string_view());
    let mut j: usize = 0;
    while j < list.len()
        invariant
            views == list@.map_values(string_view()),
            views.len() == list@.len(),
            list@ == old(list)@,
            0 <= j <= list@.len(),
            forall|m: int| 0 <= m < j ==> lex_lt(#[trigger] views[m], k@),
        decreases list@.len() - j,
    {
        proof {
            assert(views[j as int] == list@[j as int]@);
        }
        if str_lt(k.as_str(), list[j].as_str()) {
            proof {
                lemma_insert_unique_at(views, k@, j as int);
            }
            let ghost pre = list@;
            list.insert(j, k);
            proof {
                assert(list@.map_values(string_view()) =~= views.take(j as int) + seq![k@]
                    + views.skip(j as int)) by {
                    assert forall|m: int|
                        0 <= m < list@.len() implies #[trigger] list@.map_values(string_view())[m]
                        == list@[m]@ by {}
                }
            }
            return ;
        }
        if str_eq(k.as_str(), list[j].as_str()) {
            proof {
                lemma_insert_unique_found(views, k@, j as int);
            }
            return ;
        }
        proof {
            lemma_lex_total(k@, views[j as int]);
        }
        j = j + 1;
    }
    proof {
        lemma_insert_unique_at(views, k@, views.len() as int);
        assert(views.take(views.len() as int) =~= views);
        assert(views.skip(views.len() as int) =~= Seq::<Seq<char>>::empty());
    }
    let ghost pre = list@;
    list.push(k);
    proof {
        assert(list@.map_values(string_view()) =~= pre.map_values(string_view()) + seq![
            list@[list@.len() - 1]@,
        ]);
    }
}

/// The sorted set of the given spellings: sorted ascending, duplicates
/// dropped.
pub fn sort_unique(list: &Vec<String>) -> (r: Vec<String>)
    ensures
        r@.map_values(string_view()) == spec_sort_unique(list@.map_values(string_view())),
{
    let ghost views = list@.map_values(string_view());
    let mut result: Vec<String> = Vec::new();
    let mut i: usize = 0;
    proof {
        assert(views.take(0) =~= Seq::<Seq<char>>::empty());
        assert(result@.map_values(string_view()) =~= Seq::<Seq<char>>::empty());
        assert(spec_sort_unique(views.take(0)) == Seq::<Seq<char>>::empty());
    }
    while i < list.len()
        invariant
            views == list@.map_values(string_view()),
            views.len() == list@.len(),
            0 <= i <= list@.len(),
            result@.map_values(string_view()) == spec_sort_unique(views.take(i as int)),
        decreases list@.len() - i,
    {
        proof {
            assert(views.take(i + 1).drop_last() =~= views.take(i as int));
            assert(views.take(i + 1).last() == views[i as int]);
            assert(views[i as int] == list@[i as int]@);
        }
        insert_unique(&mut result, list[i].clone());
        i = i + 1;
    }
    proof {
        assert(views.take(views.len() as int) =~= views);
    }
    result
}

} // verus!
