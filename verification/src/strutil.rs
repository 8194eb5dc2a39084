//! Executable string utilities with exact sequence-level contracts, and the
//! spec functions that describe them.

use vstd::prelude::*;
use vstd::string::*;
use vstd::seq_lib::*;

verus! {

broadcast use vstd::string::group_string_axioms;

/// Character-wise equality of two string slices.
pub fn str_eq(a: &str, b: &str) -> (r: bool)
    ensures
        r == (a@ == b@),
{
    let n = a.unicode_len();
    let m = b.unicode_len();
    if n != m {
        return false;
    }
    let mut i: usize = 0;
    while i < n
        invariant
            i <= n,
            n == a@.len(),
            n == b@.len(),
            forall|j: int| 0 <= j < i ==> a@[j] == b@[j],
        decreases n - i,
    {
        if a.get_char(i) != b.get_char(i) {
            return false;
        }
        i += 1;
    }
    proof {
        assert(a@ =~= b@);
    }
    true
}

/// Whether a character occurs in the string.
pub fn contains_char(s: &str, c: char) -> (r: bool)
    ensures
        r == s@.contains(c),
{
    let n = s.unicode_len();
    let mut i: usize = 0;
    while i < n
        invariant
            i <= n,
            n == s@.len(),
            forall|j: int| 0 <= j < i ==> s@[j] != c,
        decreases n - i,
    {
        if s.get_char(i) == c {
            return true;
        }
        i += 1;
    }
    false
}

/// The index of the first occurrence of a character, if any.
pub open spec fn index_of_first(s: Seq<char>, c: char) -> Option<int>
    decreases s.len(),
{
    if s.len() == 0 {
        None
    } else if s[0] == c {
        Some(0int)
    } else {
        match index_of_first(s.drop_first(), c) {
            Some(i) => Some(i + 1),
            None => None,
        }
    }
}

/// `index_of_first` names the least index holding the character, if one does.
pub proof fn lemma_index_of_first(s: Seq<char>, c: char)
    ensures
        match index_of_first(s, c) {
            Some(i) => 0 <= i < s.len() && s[i] == c && (forall|j: int| 0 <= j < i ==> s[j] != c),
            None => forall|j: int| 0 <= j < s.len() ==> s[j] != c,
        },
    decreases s.len(),
{
    if s.len() > 0 && s[0] != c {
        lemma_index_of_first(s.drop_first(), c);
        match index_of_first(s.drop_first(), c) {
            Some(i) => {
                assert(s[i + 1] == c);
                assert forall|j: int| 0 <= j < i + 1 implies s[j] != c by {
                    if j > 0 {
                        assert(s.drop_first()[j - 1] != c);
                    }
                }
            },
            None => {
                assert forall|j: int| 0 <= j < s.len() implies s[j] != c by {
                    if j > 0 {
                        assert(s.drop_first()[j - 1] != c);
                    }
                }
            },
        }
    }
}

/// Finds the first occurrence of a character, scanning left to right.
pub fn find_char(s: &str, c: char) -> (r: Option<usize>)
    ensures
        match r {
            Some(i) => index_of_first(s@, c) == Some(i as int),
            None => index_of_first(s@, c) is None,
        },
{
    proof {
        lemma_index_of_first(s@, c);
    }
    let n = s.unicode_len();
    let mut i: usize = 0;
    while i < n
        invariant
            i <= n,
            n == s@.len(),
            forall|j: int| 0 <= j < i ==> s@[j] != c,
            match index_of_first(s@, c) {
                Some(k) => 0 <= k < s@.len() && s@[k] == c && (forall|j: int| 0 <= j < k ==> s@[j] != c),
                None => forall|j: int| 0 <= j < s@.len() ==> s@[j] != c,
            },
        decreases n - i,
    {
        if s.get_char(i) == c {
            return Some(i);
        }
        i += 1;
    }
    None
}

/// The string with every trailing occurrence of a character removed.
pub open spec fn trim_end_char(s: Seq<char>, c: char) -> Seq<char>
    decreases s.len(),
{
    if s.len() > 0 && s.last() == c {
        trim_end_char(s.drop_last(), c)
    } else {
        s
    }
}

/// Trimming from the end never disturbs a prefix that ends in another character.
pub proof fn lemma_trim_end_keeps_prefix(s: Seq<char>, c: char, n: int)
    requires
        0 < n <= s.len(),
        s[n - 1] != c,
    ensures
        trim_end_char(s, c).len() >= n,
        trim_end_char(s, c).subrange(0, n) == s.subrange(0, n),
    decreases s.len(),
{
    if s.len() > 0 && s.last() == c {
        lemma_trim_end_keeps_prefix(s.drop_last(), c, n);
        assert(s.drop_last().subrange(0, n) =~= s.subrange(0, n));
    }
}

/// Removes every trailing occurrence of a character.
pub fn trim_end_char_str<'a>(s: &'a str, c: char) -> (r: &'a str)
    ensures
        r@ == trim_end_char(s@, c),
{
    let n = s.unicode_len();
    let mut k: usize = n;
    proof {
        assert(s@.subrange(0, n as int) =~= s@);
    }
    while k > 0 && s.get_char(k - 1) == c
        invariant
            k <= n,
            n == s@.len(),
            trim_end_char(s@, c) == trim_end_char(s@.subrange(0, k as int), c),
        decreases k,
    {
        proof {
            assert(s@.subrange(0, k as int).drop_last() =~= s@.subrange(0, k as int - 1));
        }
        k -= 1;
    }
    proof {
        if k > 0 {
            assert(s@.subrange(0, k as int).last() == s@[k as int - 1]);
        }
        assert(trim_end_char(s@.subrange(0, k as int), c) == s@.subrange(0, k as int));
    }
    s.substring_char(0, k)
}

/// Whether the string begins with the given prefix.
pub fn starts_with(s: &str, p: &str) -> (r: bool)
    ensures
        r == (s@.len() >= p@.len() && s@.subrange(0, p@.len() as int) == p@),
{
    let n = s.unicode_len();
    let m = p.unicode_len();
    if n < m {
        return false;
    }
    let head = s.substring_char(0, m);
    str_eq(head, p)
}

/// Whether the string ends with the given suffix.
pub fn ends_with(s: &str, p: &str) -> (r: bool)
    ensures
        r == (s@.len() >= p@.len() && s@.subrange(s@.len() - p@.len(), s@.len() as int) == p@),
{
    let n = s.unicode_len();
    let m = p.unicode_len();
    if n < m {
        return false;
    }
    let tail = s.substring_char(n - m, n);
    str_eq(tail, p)
}

/// Whether the pattern occurs anywhere in the string.
pub open spec fn contains_seq(s: Seq<char>, p: Seq<char>) -> bool {
    exists|i: int| 0 <= i && i + p.len() <= s.len() && #[trigger] s.subrange(i, i + p.len()) == p
}

/// Substring search by scanning every position.
pub fn contains_str(s: &str, p: &str) -> (r: bool)
    ensures
        r == contains_seq(s@, p@),
{
    let n = s.unicode_len();
    let m = p.unicode_len();
    if n < m {
        return false;
    }
    if m == 0 {
        proof {
            assert(s@.subrange(0, 0 + p@.len() as int) =~= p@);
        }
        return true;
    }
    let mut i: usize = 0;
    while i <= n - m
        invariant
            1 <= m <= n,
            n == s@.len(),
            m == p@.len(),
            i <= n - m + 1,
            forall|j: int| 0 <= j < i ==> #[trigger] s@.subrange(j, j + p@.len()) != p@,
        decreases n - i,
    {
        let piece = s.substring_char(i, i + m);
        if str_eq(piece, p) {
            return true;
        }
        i += 1;
    }
    false
}

/// Splitting on a separator character: the list of pieces between its
/// occurrences, in order; always at least one piece.
pub open spec fn split_seq(s: Seq<char>, c: char) -> Seq<Seq<char>>
    decreases s.len(),
{
    if s.len() == 0 {
        seq![Seq::<char>::empty()]
    } else if s[0] == c {
        seq![Seq::<char>::empty()] + split_seq(s.drop_first(), c)
    } else {
        let rest = split_seq(s.drop_first(), c);
        seq![seq![s[0]] + rest[0]] + rest.drop_first()
    }
}

/// Splitting yields at least one piece.
pub proof fn lemma_split_seq_nonempty(s: Seq<char>, c: char)
    ensures
        split_seq(s, c).len() >= 1,
    decreases s.len(),
{
    if s.len() > 0 {
        lemma_split_seq_nonempty(s.drop_first(), c);
    }
}

/// Splits the string on every occurrence of the separator.
pub fn split_str(s: &str, c: char) -> (r: Vec<String>)
    ensures
        r.deep_view() == split_seq(s@, c),
        r.len() >= 1,
{
    let n = s.unicode_len();
    let mut r: Vec<String> = Vec::new();
    let mut cur: String = String::new();
    let mut i: usize = 0;
    proof {
        assert(s@.skip(0) =~= s@);
    }
    while i < n
        invariant
            i <= n,
            n == s@.len(),
            split_seq(s@, c) == r.deep_view() + prepend_first(cur@, split_seq(s@.skip(i as int), c)),
        decreases n - i,
    {
        let ghost rest = split_seq(s@.skip(i as int), c);
        let ghost rest1 = split_seq(s@.skip(i as int + 1), c);
        proof {
            lemma_split_seq_nonempty(s@.skip(i as int + 1), c);
            assert(s@.skip(i as int).len() > 0);
            assert(s@.skip(i as int)[0] == s@[i as int]);
            assert(s@.skip(i as int).drop_first() =~= s@.skip(i as int + 1));
        }
        if s.get_char(i) == c {
            let ghost old_dv = r.deep_view();
            let ghost old_cur = cur@;
            proof {
                assert(rest =~= seq![Seq::<char>::empty()] + rest1);
                assert(prepend_first(old_cur, rest) =~= seq![old_cur] + rest1);
            }
            r.push(cur);
            cur = String::new();
            proof {
                assert(r.deep_view() =~= old_dv + seq![old_cur]);
                assert(prepend_first(cur@, rest1) =~= rest1);
                assert(old_dv + (seq![old_cur] + rest1) =~= (old_dv + seq![old_cur]) + rest1);
            }
        } else {
            let ghost oldcur = cur@;
            let piece = s.substring_char(i, i + 1);
            proof {
                assert(piece@ =~= seq![s@[i as int]]);
            }
            cur.append(piece);
            proof {
                assert(rest =~= seq![seq![s@[i as int]] + rest1[0]] + rest1.drop_first());
                assert(prepend_first(oldcur, rest)[0] =~= oldcur + seq![s@[i as int]] + rest1[0]);
                assert(prepend_first(oldcur, rest) =~= prepend_first(cur@, rest1));
            }
        }
        i += 1;
    }
    proof {
        assert(s@.skip(n as int) =~= Seq::<char>::empty());
        assert(split_seq(Seq::<char>::empty(), c) =~= seq![Seq::<char>::empty()]);
        assert(prepend_first(cur@, split_seq(s@.skip(n as int), c)) =~= seq![cur@]);
    }
    let ghost old_dv = r.deep_view();
    let ghost old_cur = cur@;
    r.push(cur);
    proof {
        assert(r.deep_view() =~= old_dv + seq![old_cur]);
        assert(r.deep_view() =~= split_seq(s@, c));
        lemma_split_seq_nonempty(s@, c);
    }
    r
}

/// The piece list with its first piece extended on the left.
pub open spec fn prepend_first(p: Seq<char>, parts: Seq<Seq<char>>) -> Seq<Seq<char>> {
    seq![p + parts[0]] + parts.drop_first()
}

/// A character absent from both halves is absent from their concatenation.
pub proof fn lemma_concat_no_char(a: Seq<char>, b: Seq<char>, x: char)
    requires
        !a.contains(x),
        !b.contains(x),
    ensures
        !(a + b).contains(x),
{
    if (a + b).contains(x) {
        let i = choose|i: int| 0 <= i < (a + b).len() && (a + b)[i] == x;
        if i < a.len() {
            assert(a[i] == x);
        } else {
            assert(b[i - a.len()] == x);
        }
    }
}

/// A character absent from the string is absent from every piece of its
/// split.
pub proof fn lemma_split_seq_no_char(s: Seq<char>, c: char, x: char)
    requires
        !s.contains(x),
    ensures
        forall|i: int|
            0 <= i < split_seq(s, c).len() ==> !(#[trigger] split_seq(s, c)[i]).contains(x),
    decreases s.len(),
{
    let parts = split_seq(s, c);
    if s.len() > 0 {
        let rest = s.drop_first();
        assert(!rest.contains(x)) by {
            if rest.contains(x) {
                let i = choose|i: int| 0 <= i < rest.len() && rest[i] == x;
                assert(s[i + 1] == x);
            }
        }
        lemma_split_seq_no_char(rest, c, x);
        let rparts = split_seq(rest, c);
        if s[0] == c {
            assert forall|i: int| 0 <= i < parts.len() implies !(#[trigger] parts[i]).contains(
                x,
            ) by {
                if i > 0 {
                    assert(parts[i] == rparts[i - 1]);
                }
            }
        } else {
            assert(s[0] != x);
            assert(!seq![s[0]].contains(x)) by {
                if seq![s[0]].contains(x) {
                    let i = choose|i: int| 0 <= i < 1 && seq![s[0]][i] == x;
                    assert(seq![s[0]][0] == x);
                }
            }
            lemma_concat_no_char(seq![s[0]], rparts[0], x);
            assert forall|i: int| 0 <= i < parts.len() implies !(#[trigger] parts[i]).contains(
                x,
            ) by {
                if i == 0 {
                    assert(parts[0] == seq![s[0]] + rparts[0]);
                } else {
                    assert(parts[i] == rparts.drop_first()[i - 1]);
                    assert(rparts.drop_first()[i - 1] == rparts[i]);
                }
            }
        }
    }
}

/// A character absent from the string is absent from its end-trimmed form.
pub proof fn lemma_trim_end_no_char(s: Seq<char>, c: char, x: char)
    requires
        !s.contains(x),
    ensures
        !trim_end_char(s, c).contains(x),
    decreases s.len(),
{
    if s.len() > 0 && s.last() == c {
        assert(!s.drop_last().contains(x)) by {
            if s.drop_last().contains(x) {
                let i = choose|i: int| 0 <= i < s.drop_last().len() && s.drop_last()[i] == x;
                assert(s[i] == x);
            }
        }
        lemma_trim_end_no_char(s.drop_last(), c, x);
    }
}

/// Splitting with the trailing empty piece, if any, skipped.
pub open spec fn split_terminator_seq(s: Seq<char>, c: char) -> Seq<Seq<char>> {
    let parts = split_seq(s, c);
    if parts.last().len() == 0 {
        parts.drop_last()
    } else {
        parts
    }
}

/// Right-to-left splitting that skips a trailing empty piece: the pieces of
/// `split_terminator_seq` in reverse order, so the rightmost piece is index 0.
pub open spec fn rsplit_terminator_seq(s: Seq<char>, c: char) -> Seq<Seq<char>> {
    split_terminator_seq(s, c).reverse()
}

/// Splits right to left on the separator, skipping a trailing empty piece.
pub fn rsplit_terminator_str(s: &str, c: char) -> (r: Vec<String>)
    ensures
        r.deep_view() == rsplit_terminator_seq(s@, c),
{
    let mut parts = split_str(s, c);
    let ghost all = parts.deep_view();
    let last_len = parts[parts.len() - 1].as_str().unicode_len();
    if last_len == 0 {
        parts.pop();
        proof {
            assert(parts.deep_view() =~= all.drop_last());
        }
    }
    let ghost kept = split_terminator_seq(s@, c);
    proof {
        assert(parts.deep_view() =~= kept);
    }
    let mut r: Vec<String> = Vec::new();
    while parts.len() > 0
        invariant
            parts.deep_view() =~= kept.subrange(0, parts.len() as int),
            r.len() + parts.len() == kept.len(),
            forall|k: int| 0 <= k < r.len() ==> r.deep_view()[k] == kept[kept.len() - 1 - k],
        decreases parts.len(),
    {
        let ghost before = parts.deep_view();
        let ghost r_before = r.deep_view();
        let ghost vec_before = parts@;
        let piece = parts.pop().unwrap();
        r.push(piece);
        proof {
            assert(parts.deep_view() =~= before.drop_last());
            assert(parts.deep_view() =~= kept.subrange(0, parts.len() as int));
            assert(r.deep_view() =~= r_before + seq![piece@]);
            assert(piece == vec_before[vec_before.len() - 1]);
            assert(piece@ == before[before.len() - 1]);
            assert(before[before.len() - 1] == kept[parts.len() as int]);
        }
    }
    proof {
        assert(r.deep_view() =~= kept.reverse());
    }
    r
}

/// The non-empty pieces of a segment list, in order.
pub open spec fn nonempty_of(sp: Seq<Seq<char>>) -> Seq<Seq<char>>
    decreases sp.len(),
{
    if sp.len() == 0 {
        Seq::empty()
    } else if sp[0].len() > 0 {
        seq![sp[0]] + nonempty_of(sp.drop_first())
    } else {
        nonempty_of(sp.drop_first())
    }
}

/// Every piece the filter keeps is non-empty.
pub proof fn lemma_nonempty_of_elements(sp: Seq<Seq<char>>)
    ensures
        forall|i: int|
            0 <= i < nonempty_of(sp).len() ==> #[trigger] nonempty_of(sp)[i].len() > 0,
    decreases sp.len(),
{
    if sp.len() > 0 {
        lemma_nonempty_of_elements(sp.drop_first());
        let rest = nonempty_of(sp.drop_first());
        if sp[0].len() > 0 {
            assert forall|i: int|
                0 <= i < nonempty_of(sp).len() implies #[trigger] nonempty_of(sp)[i].len()
                > 0 by {
                if i > 0 {
                    assert(nonempty_of(sp)[i] == rest[i - 1]);
                }
            }
        }
    }
}

/// Keeps the non-empty strings of a list, in order.
pub fn filter_nonempty(v: &Vec<String>) -> (r: Vec<String>)
    ensures
        r.deep_view() == nonempty_of(v.deep_view()),
{
    let mut r: Vec<String> = Vec::new();
    let mut i: usize = 0;
    proof {
        assert(v.deep_view().skip(0) =~= v.deep_view());
    }
    while i < v.len()
        invariant
            i <= v.len(),
            v.deep_view().len() == v.len(),
            nonempty_of(v.deep_view()) == r.deep_view() + nonempty_of(
                v.deep_view().skip(i as int),
            ),
        decreases v.len() - i,
    {
        let ghost rest = v.deep_view().skip(i as int);
        proof {
            assert(rest[0] == v.deep_view()[i as int]);
            assert(rest.drop_first() =~= v.deep_view().skip(i as int + 1));
            assert(v.deep_view()[i as int] == v@[i as int]@);
        }
        if v[i].as_str().unicode_len() > 0 {
            let ghost r_before = r.deep_view();
            let piece = v[i].clone();
            r.push(piece);
            proof {
                assert(r.deep_view() =~= r_before + seq![rest[0]]);
                assert(r_before + (seq![rest[0]] + nonempty_of(rest.drop_first())) =~= (r_before
                    + seq![rest[0]]) + nonempty_of(rest.drop_first()));
            }
        }
        i += 1;
    }
    proof {
        assert(v.deep_view().skip(v.len() as int) =~= Seq::<Seq<char>>::empty());
        assert(r.deep_view() =~= nonempty_of(v.deep_view()));
    }
    r
}

/// The string with every trailing `.git` removed.
pub open spec fn trim_dot_git(s: Seq<char>) -> Seq<char>
    decreases s.len(),
{
    if s.len() >= 4 && s.subrange(s.len() - 4, s.len() as int) == ".git"@ {
        trim_dot_git(s.subrange(0, s.len() - 4))
    } else {
        s
    }
}

/// Removes every trailing `.git` from the string.
pub fn trim_dot_git_str<'a>(s: &'a str) -> (r: &'a str)
    ensures
        r@ == trim_dot_git(s@),
{
    let n = s.unicode_len();
    let mut k: usize = n;
    proof {
        assert(s@.subrange(0, n as int) =~= s@);
    }
    loop
        invariant
            k <= n,
            n == s@.len(),
            trim_dot_git(s@) == trim_dot_git(s@.subrange(0, k as int)),
        ensures
            trim_dot_git(s@.subrange(0, k as int)) == s@.subrange(0, k as int),
        decreases k,
    {
        if k < 4 {
            break;
        }
        let tail = s.substring_char(k - 4, k);
        proof {
            let pre = s@.subrange(0, k as int);
            assert(pre.subrange(pre.len() - 4, pre.len() as int) =~= s@.subrange(
                k as int - 4,
                k as int,
            ));
            assert(pre.subrange(0, pre.len() - 4) =~= s@.subrange(0, k as int - 4));
        }
        if !str_eq(tail, ".git") {
            break;
        }
        k -= 4;
    }
    s.substring_char(0, k)
}

/// Every occurrence of `git:` rewritten to `git://`, scanning left to right.
pub open spec fn replace_git_short(s: Seq<char>) -> Seq<char>
    decreases s.len(),
{
    if s.len() < 4 {
        s
    } else if s.subrange(0, 4) == "git:"@ {
        "git://"@ + replace_git_short(s.skip(4))
    } else {
        seq![s[0]] + replace_git_short(s.skip(1))
    }
}

/// Rewrites every occurrence of `git:` to `git://`.
pub fn replace_git_short_str(s: &str) -> (r: String)
    ensures
        r@ == replace_git_short(s@),
{
    let n = s.unicode_len();
    let mut out = String::new();
    let mut i: usize = 0;
    proof {
        reveal_strlit("git:");
        assert(s@.skip(0) =~= s@);
    }
    while i < n
        invariant
            i <= n,
            n == s@.len(),
            "git:"@.len() == 4,
            replace_git_short(s@) == out@ + replace_git_short(s@.skip(i as int)),
        decreases n - i,
    {
        let ghost rest = s@.skip(i as int);
        let ghost before = out@;
        if n - i >= 4 && {
            let head = s.substring_char(i, i + 4);
            str_eq(head, "git:")
        } {
            proof {
                assert(rest.subrange(0, 4) =~= s@.subrange(i as int, i as int + 4));
                assert(rest.skip(4) =~= s@.skip(i as int + 4));
            }
            out.append("git://");
            i += 4;
        } else {
            proof {
                if rest.len() >= 4 {
                    assert(rest.subrange(0, 4) =~= s@.subrange(i as int, i as int + 4));
                }
                assert(rest.skip(1) =~= s@.skip(i as int + 1));
            }
            let piece = s.substring_char(i, i + 1);
            proof {
                assert(piece@ =~= seq![s@[i as int]]);
            }
            out.append(piece);
            i += 1;
        }
    }
    proof {
        assert(s@.skip(n as int) =~= Seq::<char>::empty());
        assert(replace_git_short(Seq::<char>::empty()) =~= Seq::<char>::empty());
        assert(out@ =~= replace_git_short(s@));
    }
    out
}

/// The decimal digit character for a value below ten.
pub open spec fn dec_digit(d: nat) -> char {
    if d == 0 {
        '0'
    } else if d == 1 {
        '1'
    } else if d == 2 {
        '2'
    } else if d == 3 {
        '3'
    } else if d == 4 {
        '4'
    } else if d == 5 {
        '5'
    } else if d == 6 {
        '6'
    } else if d == 7 {
        '7'
    } else if d == 8 {
        '8'
    } else {
        '9'
    }
}

/// The usual decimal rendering of a number, most significant digit first.
pub open spec fn dec_rep(n: nat) -> Seq<char>
    decreases n,
{
    if n < 10 {
        seq![dec_digit(n)]
    } else {
        dec_rep(n / 10) + seq![dec_digit(n % 10)]
    }
}

/// Appends the digit character of a value below ten.
fn push_digit(s: &mut String, d: u16)
    requires
        d < 10,
    ensures
        final(s)@ == old(s)@ + seq![dec_digit(d as nat)],
{
    proof {
        reveal_strlit("0");
        reveal_strlit("1");
        reveal_strlit("2");
        reveal_strlit("3");
        reveal_strlit("4");
        reveal_strlit("5");
        reveal_strlit("6");
        reveal_strlit("7");
        reveal_strlit("8");
        reveal_strlit("9");
    }
    if d == 0 {
        s.append("0");
    } else if d == 1 {
        s.append("1");
    } else if d == 2 {
        s.append("2");
    } else if d == 3 {
        s.append("3");
    } else if d == 4 {
        s.append("4");
    } else if d == 5 {
        s.append("5");
    } else if d == 6 {
        s.append("6");
    } else if d == 7 {
        s.append("7");
    } else if d == 8 {
        s.append("8");
    } else {
        s.append("9");
    }
    proof {
        assert(final(s)@ =~= old(s)@ + seq![dec_digit(d as nat)]);
    }
}

/// Renders a number in decimal.
pub fn u16_to_dec(n: u16) -> (r: String)
    ensures
        r@ == dec_rep(n as nat),
{
    let mut digits: Vec<u16> = Vec::new();
    digits.push(n % 10);
    let mut m = n / 10;
    proof {
        assert(n % 10 < 10);
        assert(n as nat % 10 == (n % 10) as nat);
    }
    while m > 0
        invariant
            digits.len() >= 1,
            forall|k: int| 0 <= k < digits.len() ==> digits[k] < 10,
            m > 0 ==> dec_rep(n as nat) == dec_rep(m as nat) + rev_digit_chars(digits@),
            m == 0 ==> dec_rep(n as nat) == rev_digit_chars(digits@),
        decreases m,
    {
        let ghost before = digits@;
        digits.push(m % 10);
        proof {
            assert(rev_digit_chars(digits@) =~= seq![dec_digit((m % 10) as nat)] + rev_digit_chars(
                before,
            ));
            if m >= 10 {
                assert(dec_rep(m as nat) == dec_rep((m / 10) as nat) + seq![
                    dec_digit((m % 10) as nat),
                ]);
            } else {
                assert(dec_rep(m as nat) == seq![dec_digit(m as nat)]);
                assert(m % 10 == m);
            }
        }
        m = m / 10;
    }
    let mut r = String::new();
    let mut j: usize = digits.len();
    while j > 0
        invariant
            j <= digits.len(),
            forall|k: int| 0 <= k < digits.len() ==> digits[k] < 10,
            dec_rep(n as nat) == rev_digit_chars(digits@),
            r@ =~= rev_digit_chars(digits@).subrange(0, digits.len() - j),
        decreases j,
    {
        let ghost before = r@;
        push_digit(&mut r, digits[j - 1]);
        proof {
            assert(rev_digit_chars(digits@)[digits.len() - j] == dec_digit(
                digits@[j - 1] as nat,
            ));
            assert(r@ =~= rev_digit_chars(digits@).subrange(0, digits.len() - j + 1));
        }
        j -= 1;
    }
    proof {
        assert(r@ =~= rev_digit_chars(digits@));
    }
    r
}

/// The digit characters of a least-significant-first digit list, reversed
/// into the usual most-significant-first reading order.
pub open spec fn rev_digit_chars(d: Seq<u16>) -> Seq<char> {
    Seq::new(d.len(), |i: int| dec_digit(d[d.len() - 1 - i] as nat))
}

} // verus!
