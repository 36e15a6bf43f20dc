//! Character-level helpers for the small grammars of the crate:
//! distinguished names, tagged password records and authorization headers.

use vstd::prelude::*;

verus! {

/// `<str as PartialEq>::eq`, the `==` of string slices: it holds exactly
/// when both hold the same characters.
pub assume_specification[ <str as PartialEq>::eq ](a: &str, b: &str) -> (res: bool)
    ensures
        res == (a@ == b@),
;

/// `String::push`: it appends the character to the end of the string.
pub assume_specification[ String::push ](s: &mut String, ch: char)
    ensures
        final(s)@ == old(s)@.push(ch),
;

/// The position of the first `c` in `s` at or after `from`, or `s.len()`
/// when there is none.
pub open spec fn position_from(s: Seq<char>, c: char, from: int) -> int
    decreases s.len() - from,
{
    if from < 0 || from >= s.len() {
        s.len() as int
    } else if s[from] == c {
        from
    } else {
        position_from(s, c, from + 1)
    }
}

/// The position of the first `c` in `s`, or `s.len()` when `s` has no `c`.
pub open spec fn position(s: Seq<char>, c: char) -> int {
    position_from(s, c, 0)
}

/// The position of the last `c` among the first `end` characters of `s`,
/// or `-1` when there is none.
pub open spec fn last_position_before(s: Seq<char>, c: char, end: int) -> int
    decreases end,
{
    if end <= 0 || end > s.len() {
        -1
    } else if s[end - 1] == c {
        end - 1
    } else {
        last_position_before(s, c, end - 1)
    }
}

/// The position of the last `c` in `s`, or `-1` when `s` has no `c`.
pub open spec fn last_position(s: Seq<char>, c: char) -> int {
    last_position_before(s, c, s.len() as int)
}

/// Whether `pat` stands in `s` at position `i`.
pub open spec fn occurs_at(s: Seq<char>, pat: Seq<char>, i: int) -> bool {
    0 <= i && i + pat.len() <= s.len() && s.subrange(i, i + pat.len()) == pat
}

/// `position_from` finds the first `c` at or after `from`.
pub proof fn lemma_position_from(s: Seq<char>, c: char, from: int)
    requires
        0 <= from <= s.len(),
    ensures
        from <= position_from(s, c, from) <= s.len(),
        forall|j: int| from <= j < position_from(s, c, from) ==> s[j] != c,
        position_from(s, c, from) < s.len() ==> s[position_from(s, c, from)] == c,
    decreases s.len() - from,
{
    if from < s.len() && s[from] != c {
        lemma_position_from(s, c, from + 1);
    }
}

/// `last_position_before` finds the last `c` before `end`.
pub proof fn lemma_last_position_before(s: Seq<char>, c: char, end: int)
    requires
        0 <= end <= s.len(),
    ensures
        -1 <= last_position_before(s, c, end) < end,
        forall|j: int| last_position_before(s, c, end) < j < end ==> s[j] != c,
        last_position_before(s, c, end) >= 0 ==> s[last_position_before(s, c, end)] == c,
    decreases end,
{
    if end > 0 && s[end - 1] != c {
        lemma_last_position_before(s, c, end - 1);
    }
}

/// The characters of `s`, in order.
pub fn chars_of(s: &str) -> (out: Vec<char>)
    ensures
        out@ == s@,
{
    let mut out: Vec<char> = Vec::new();
    for c in it: s.chars()
        invariant
            out@ == it.seq().take(it.index() as int),
            it.seq() == s@,
    {
        out.push(c);
    }
    out
}

/// The characters `from..to` of `v` as a string.
pub fn text_of(v: &Vec<char>, from: usize, to: usize) -> (out: String)
    requires
        from <= to <= v@.len(),
    ensures
        out@ == v@.subrange(from as int, to as int),
{
    let mut out = String::new();
    let mut i: usize = from;
    while i < to
        invariant
            from <= i <= to <= v@.len(),
            out@ == v@.subrange(from as int, i as int),
        decreases to - i,
    {
        out.push(v[i]);
        i += 1;
    }
    out
}

/// The characters `from..to` of `v`.
pub fn sub_chars(v: &Vec<char>, from: usize, to: usize) -> (out: Vec<char>)
    requires
        from <= to <= v@.len(),
    ensures
        out@ == v@.subrange(from as int, to as int),
{
    let mut out: Vec<char> = Vec::new();
    let mut i: usize = from;
    while i < to
        invariant
            from <= i <= to <= v@.len(),
            out@ == v@.subrange(from as int, i as int),
        decreases to - i,
    {
        out.push(v[i]);
        i += 1;
    }
    out
}

/// Finds the first `c` in `v` at or after `from`; the length of `v` when
/// there is none.
pub fn find_char_from(v: &Vec<char>, c: char, from: usize) -> (at: usize)
    requires
        from <= v@.len(),
    ensures
        at == position_from(v@, c, from as int),
        from <= at <= v@.len(),
        forall|j: int| from <= j < at ==> v@[j] != c,
        at < v@.len() ==> v@[at as int] == c,
{
    proof {
        lemma_position_from(v@, c, from as int);
    }
    let mut i: usize = from;
    while i < v.len() && v[i] != c
        invariant
            from <= i <= v@.len(),
            position_from(v@, c, from as int) == position_from(v@, c, i as int),
        decreases v@.len() - i,
    {
        i += 1;
    }
    i
}

/// Finds the last `c` in `v`.
pub fn find_last_char(v: &Vec<char>, c: char) -> (at: Option<usize>)
    ensures
        match at {
            Some(i) => i == last_position(v@, c) && i < v@.len() && v@[i as int] == c,
            None => last_position(v@, c) == -1,
        },
        forall|j: int| last_position(v@, c) < j < v@.len() ==> v@[j] != c,
{
    proof {
        lemma_last_position_before(v@, c, v@.len() as int);
    }
    let mut end: usize = v.len();
    while end > 0 && v[end - 1] != c
        invariant
            end <= v@.len(),
            last_position(v@, c) == last_position_before(v@, c, end as int),
        decreases end,
    {
        end -= 1;
    }
    if end == 0 {
        None
    } else {
        Some(end - 1)
    }
}

/// Whether `pat` stands in `v` at position `i`.
pub fn stands_at(v: &Vec<char>, pat: &Vec<char>, i: usize) -> (r: bool)
    requires
        i <= v@.len(),
    ensures
        r == occurs_at(v@, pat@, i as int),
{
    if pat.len() > v.len() - i {
        return false;
    }
    let mut k: usize = 0;
    while k < pat.len()
        invariant
            k <= pat@.len(),
            i + pat@.len() <= v@.len() <= usize::MAX,
            forall|j: int| 0 <= j < k ==> v@[i + j] == pat@[j],
        decreases pat@.len() - k,
    {
        if v[i + k] != pat[k] {
            proof {
                assert(v@.subrange(i as int, i + pat@.len())[k as int] == v@[i + k]);
            }
            return false;
        }
        k += 1;
    }
    proof {
        assert(v@.subrange(i as int, i + pat@.len()) =~= pat@);
    }
    true
}

/// The texts that a list of strings holds.
pub open spec fn texts(v: Seq<String>) -> Seq<Seq<char>> {
    Seq::new(v.len(), |i: int| v[i]@)
}

/// The set of texts that a list of strings holds.
pub open spec fn text_set(v: Seq<String>) -> Set<Seq<char>> {
    texts(v).to_set()
}

/// Whether the list holds `name`.
pub fn holds_text(v: &Vec<String>, name: &str) -> (held: bool)
    ensures
        held == text_set(v@).contains(name@),
{
    let mut i: usize = 0;
    while i < v.len()
        invariant
            i <= v@.len(),
            forall|j: int| 0 <= j < i ==> v@[j]@ != name@,
        decreases v@.len() - i,
    {
        if v[i].as_str().eq(name) {
            assert(texts(v@)[i as int] == name@);
            return true;
        }
        i += 1;
    }
    assert(!texts(v@).contains(name@)) by {
        if texts(v@).contains(name@) {
            let j = choose|j: int| 0 <= j < texts(v@).len() && texts(v@)[j] == name@;
            assert(v@[j]@ == name@);
        }
    }
    false
}

/// Puts `name` into a list that holds no text twice, unless it is there.
pub fn insert_text(v: &mut Vec<String>, name: String)
    requires
        texts(old(v)@).no_duplicates(),
    ensures
        texts(final(v)@).no_duplicates(),
        text_set(final(v)@) == text_set(old(v)@).insert(name@),
        texts(final(v)@) == if texts(old(v)@).contains(name@) {
            texts(old(v)@)
        } else {
            texts(old(v)@).push(name@)
        },
{
    let ghost before = texts(v@);
    if !holds_text(v, name.as_str()) {
        v.push(name);
        assert(texts(v@) =~= before.push(name@));
        assert(texts(v@).to_set() =~= before.to_set().insert(name@)) by {
            assert forall|a: Seq<char>| texts(v@).contains(a) <==> (before.contains(a) || a
                == name@) by {
                if before.contains(a) {
                    let j = choose|j: int| 0 <= j < before.len() && before[j] == a;
                    assert(texts(v@)[j] == a);
                }
                if a == name@ {
                    assert(texts(v@)[before.len() as int] == a);
                }
            }
        }
    } else {
        assert(before.to_set().insert(name@) =~= before.to_set());
    }
}

/// Takes `name` out of a list that holds no text twice.
pub fn remove_text(v: &mut Vec<String>, name: &str)
    requires
        texts(old(v)@).no_duplicates(),
    ensures
        texts(final(v)@).no_duplicates(),
        text_set(final(v)@) == text_set(old(v)@).remove(name@),
{
    let ghost before = texts(v@);
    let mut i: usize = 0;
    while i < v.len()
        invariant
            i <= v@.len(),
            texts(v@) == before,
            before == texts(old(v)@),
            before.no_duplicates(),
            forall|j: int| 0 <= j < i ==> v@[j]@ != name@,
        decreases v@.len() - i,
    {
        if v[i].as_str().eq(name) {
            assert(before[i as int] == name@);
            v.remove(i);
            proof {
                let after = texts(v@);
                assert(after =~= before.remove(i as int));
                assert forall|x: int, y: int|
                    0 <= x < after.len() && 0 <= y < after.len() && x != y implies after[x]
                    != after[y] by {
                    let bx = if x < i { x } else { x + 1 };
                    let by_ = if y < i { y } else { y + 1 };
                    assert(after[x] == before[bx] && after[y] == before[by_]);
                }
                assert(after.to_set() =~= before.to_set().remove(name@)) by {
                    assert forall|a: Seq<char>| after.contains(a) <==> (before.contains(a) && a
                        != name@) by {
                        if after.contains(a) {
                            let j = choose|j: int| 0 <= j < after.len() && after[j] == a;
                            if j < i {
                                assert(before[j] == a);
                            } else {
                                assert(before[j + 1] == a);
                            }
                        }
                        if before.contains(a) && a != name@ {
                            let j = choose|j: int| 0 <= j < before.len() && before[j] == a;
                            if j < i {
                                assert(after[j] == a);
                            } else {
                                assert(after[j - 1] == a);
                            }
                        }
                    }
                }
            }
            return ;
        }
        i += 1;
    }
    proof {
        assert(!before.contains(name@)) by {
            if before.contains(name@) {
                let j = choose|j: int| 0 <= j < before.len() && before[j] == name@;
                assert(v@[j]@ == name@);
            }
        }
        assert(before.to_set().remove(name@) =~= before.to_set());
    }
}

/// Whether two byte strings hold the same bytes.
pub fn same_bytes(a: &Vec<u8>, b: &Vec<u8>) -> (r: bool)
    ensures
        r == (a@ == b@),
{
    if a.len() != b.len() {
        return false;
    }
    let mut i: usize = 0;
    while i < a.len()
        invariant
            i <= a@.len(),
            a@.len() == b@.len(),
            forall|j: int| 0 <= j < i ==> a@[j] == b@[j],
        decreases a@.len() - i,
    {
        if a[i] != b[i] {
            return false;
        }
        i += 1;
    }
    proof {
        assert(a@ =~= b@);
    }
    true
}

} // verus!
