use vstd::prelude::*;

verus! {

/// Whether `s` begins with `prefix`.
pub open spec fn has_prefix(s: Seq<char>, prefix: Seq<char>) -> bool {
    prefix.len() <= s.len() && s.subrange(0, prefix.len() as int) == prefix
}

/// `s` without its first character; the empty text stays empty.
pub open spec fn drop_first_char(s: Seq<char>) -> Seq<char> {
    if s.len() == 0 {
        s
    } else {
        s.skip(1)
    }
}

/// Whether `i` is the position of the first `c` in `s`.
pub open spec fn is_first_index(s: Seq<char>, c: char, i: int) -> bool {
    &&& 0 <= i < s.len()
    &&& s[i] == c
    &&& forall|j: int| 0 <= j < i ==> s[j] != c
}

/// The position of the first `c` in `s`, where `s` holds one.
pub open spec fn first_index(s: Seq<char>, c: char) -> int {
    choose|i: int| is_first_index(s, c, i)
}

/// The pieces of `s` between occurrences of `sep`. Every occurrence separates,
/// so two separators in a row enclose an empty piece and the empty text is one
/// empty piece.
pub open spec fn split(s: Seq<char>, sep: char) -> Seq<Seq<char>>
    decreases s.len(),
{
    if s.contains(sep) {
        let i = first_index(s, sep);
        if 0 <= i < s.len() {
            seq![s.take(i)] + split(s.skip(i + 1), sep)
        } else {
            seq![s]
        }
    } else {
        seq![s]
    }
}

/// The pieces of `parts` in order, with `sep` between neighbours.
pub open spec fn join(parts: Seq<Seq<char>>, sep: Seq<char>) -> Seq<char>
    decreases parts.len(),
{
    if parts.len() == 0 {
        Seq::empty()
    } else if parts.len() == 1 {
        parts[0]
    } else {
        join(parts.drop_last(), sep) + sep + parts.last()
    }
}

/// The characters of `s`, in order.
pub fn chars_of(s: &str) -> (v: Vec<char>)
    ensures
        v@ == s@,
{
    let mut v: Vec<char> = Vec::new();
    for c in it: s.chars()
        invariant
            v@ == it.seq().take(it.index() as int),
            it.seq() == s@,
    {
        v.push(c);
    }
    v
}

/// Whether `s` begins with the characters `prefix`.
pub fn starts_with(s: &Vec<char>, prefix: &Vec<char>) -> (b: bool)
    ensures
        b == has_prefix(s@, prefix@),
{
    if prefix.len() > s.len() {
        return false;
    }
    let mut i: usize = 0;
    while i < prefix.len()
        invariant
            i <= prefix.len() <= s.len(),
            forall|j: int| 0 <= j < i ==> s@[j] == prefix@[j],
        decreases prefix.len() - i,
    {
        if s[i] != prefix[i] {
            assert(s@.subrange(0, prefix@.len() as int)[i as int] != prefix@[i as int]);
            return false;
        }
        i += 1;
    }
    assert(s@.subrange(0, prefix@.len() as int) =~= prefix@);
    true
}

/// Whether two texts hold the same characters.
pub fn same_text(a: &str, b: &str) -> (same: bool)
    ensures
        same == (a@ == b@),
{
    let x = chars_of(a);
    let y = chars_of(b);
    if x.len() != y.len() {
        return false;
    }
    let mut i: usize = 0;
    while i < x.len()
        invariant
            i <= x.len() == y.len(),
            x@ == a@,
            y@ == b@,
            forall|j: int| 0 <= j < i ==> x@[j] == y@[j],
        decreases x.len() - i,
    {
        if x[i] != y[i] {
            assert(a@[i as int] != b@[i as int]);
            return false;
        }
        i += 1;
    }
    assert(x@ =~= y@);
    true
}

/// The position of the first `c` at or after `from`, or the length of `s`
/// where there is none.
pub fn find_from(s: &Vec<char>, from: usize, c: char) -> (at: usize)
    requires
        from <= s.len(),
    ensures
        from <= at <= s.len(),
        forall|j: int| from <= j < at ==> s@[j] != c,
        at < s.len() ==> s@[at as int] == c,
{
    let mut i: usize = from;
    while i < s.len()
        invariant
            from <= i <= s.len(),
            forall|j: int| from <= j < i ==> s@[j] != c,
        decreases s.len() - i,
    {
        if s[i] == c {
            return i;
        }
        i += 1;
    }
    i
}

/// The characters of `s` from position `from` up to, not including, `to`.
pub fn text_of(s: &str, from: usize, to: usize) -> (t: String)
    requires
        from <= to <= s@.len(),
    ensures
        t@ == s@.subrange(from as int, to as int),
{
    s.substring_char(from, to).to_owned()
}

/// A text that holds `c` holds a first one.
pub proof fn lemma_first_index(s: Seq<char>, c: char)
    requires
        s.contains(c),
    ensures
        is_first_index(s, c, first_index(s, c)),
    decreases s.len(),
{
    let j = choose|j: int| 0 <= j < s.len() && s[j] == c;
    let before = s.take(j);
    if before.contains(c) {
        lemma_first_index(before, c);
        let i = first_index(before, c);
        assert(s[i] == before[i]);
        assert forall|k: int| 0 <= k < i implies s[k] != c by {
            assert(s[k] == before[k]);
        }
        assert(is_first_index(s, c, i));
    } else {
        assert forall|k: int| 0 <= k < j implies s[k] != c by {
            if s[k] == c {
                assert(before[k] == c);
            }
        }
        assert(is_first_index(s, c, j));
    }
}

/// Where the first `sep` of `s` stands at `k`, the first piece of `s` ends there
/// and the rest of `s` is split in turn; without any `sep`, `s` is one piece.
pub proof fn lemma_split_at_first(s: Seq<char>, sep: char, k: int)
    requires
        0 <= k <= s.len(),
        forall|j: int| 0 <= j < k ==> s[j] != sep,
        k < s.len() ==> s[k] == sep,
    ensures
        k == s.len() ==> split(s, sep) == seq![s],
        k < s.len() ==> split(s, sep) == seq![s.take(k)] + split(s.skip(k + 1), sep),
{
    if k < s.len() {
        assert(is_first_index(s, sep, k));
        assert(s.contains(sep));
        let i = first_index(s, sep);
        assert(is_first_index(s, sep, i));
        assert(i == k);
    } else {
        assert(!s.contains(sep));
    }
}

/// The pieces of `s` between occurrences of `sep`, as owned texts.
pub fn split_text(s: &str, sep: char) -> (parts: Vec<String>)
    ensures
        parts.deep_view() == split(s@, sep),
{
    let chars = chars_of(s);
    let n: usize = chars.len();
    let mut parts: Vec<String> = Vec::new();
    let mut start: usize = 0;
    proof {
        assert(s@.skip(0) =~= s@);
        assert(parts.deep_view() + split(s@, sep) =~= split(s@, sep));
    }
    loop
        invariant_except_break
            start <= n,
            split(s@, sep) == parts.deep_view() + split(s@.skip(start as int), sep),
        invariant
            chars@ == s@,
            n == chars.len(),
        ensures
            parts.deep_view() == split(s@, sep),
        decreases n - start,
    {
        let at: usize = find_from(&chars, start, sep);
        let piece = text_of(s, start, at);
        let ghost before = parts.deep_view();
        let ghost rest = s@.skip(start as int);
        proof {
            lemma_split_at_first(rest, sep, at - start);
            assert(rest.take(at - start) =~= s@.subrange(start as int, at as int));
        }
        parts.push(piece);
        assert(parts.deep_view() =~= before.push(rest.take(at - start)));
        if at == n {
            assert(rest.take(at - start) =~= rest);
            assert(parts.deep_view() =~= before + seq![rest]);
            break;
        }
        proof {
            assert(rest.skip(at - start + 1) =~= s@.skip(at + 1));
            assert(before + (seq![rest.take(at - start)] + split(s@.skip(at + 1), sep))
                =~= parts.deep_view() + split(s@.skip(at + 1), sep));
        }
        start = at + 1;
    }
    parts
}

/// The texts of `parts` in order, with `sep` between neighbours.
pub fn join_text(parts: &[String], sep: &str) -> (joined: String)
    ensures
        joined@ == join(parts.deep_view(), sep@),
{
    let mut joined = String::new();
    let mut i: usize = 0;
    while i < parts.len()
        invariant
            i <= parts.len(),
            joined@ == join(parts.deep_view().take(i as int), sep@),
        decreases parts.len() - i,
    {
        let ghost upto = parts.deep_view().take(i + 1);
        assert(upto.drop_last() =~= parts.deep_view().take(i as int));
        assert(upto.last() == parts[i as int]@);
        if i > 0 {
            joined.append(sep);
        } else {
            assert(joined@ + parts[i as int]@ =~= parts[i as int]@);
        }
        joined.append(parts[i].as_str());
        i += 1;
    }
    assert(parts.deep_view().take(i as int) =~= parts.deep_view());
    joined
}

} // verus!
