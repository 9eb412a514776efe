//! The `|`-separated field lists in which the registry is persisted.

use vstd::prelude::*;

verus! {

/// The character that separates the values of one field across records.
pub open spec fn separator() -> char {
    '|'
}

/// A value that can stand in a field list: it holds no separator.
pub open spec fn free_of_sep(s: Seq<char>) -> bool {
    forall|i: int| 0 <= i < s.len() ==> s[i] != separator()
}

/// The views of a sequence of strings.
pub open spec fn texts(v: Seq<String>) -> Seq<Seq<char>> {
    v.map_values(|x: String| x@)
}

/// The pieces of `s` between separators, left to right: one more than the
/// separators in `s`, so never none.
pub open spec fn split_fields(s: Seq<char>) -> Seq<Seq<char>>
    decreases s.len(),
{
    if s.len() == 0 {
        seq![Seq::empty()]
    } else {
        let p = split_fields(s.drop_last());
        if s.last() == separator() {
            p.push(Seq::empty())
        } else {
            p.update(p.len() - 1, p.last().push(s.last()))
        }
    }
}

/// The values joined with one separator between neighbours, none at the end.
pub open spec fn join_fields(parts: Seq<Seq<char>>) -> Seq<char>
    decreases parts.len(),
{
    if parts.len() == 0 {
        Seq::empty()
    } else if parts.len() == 1 {
        parts[0]
    } else {
        join_fields(parts.drop_last()) + seq![separator()] + parts.last()
    }
}

pub proof fn lemma_split_nonempty(s: Seq<char>)
    ensures
        split_fields(s).len() >= 1,
    decreases s.len(),
{
    if s.len() > 0 {
        lemma_split_nonempty(s.drop_last());
    }
}

/// A value without separators splits into itself alone.
pub proof fn lemma_split_free(b: Seq<char>)
    requires
        free_of_sep(b),
    ensures
        split_fields(b) == seq![b],
    decreases b.len(),
{
    if b.len() == 0 {
        assert(b =~= Seq::<char>::empty());
    } else {
        let c = b.drop_last();
        assert(free_of_sep(c));
        lemma_split_free(c);
        assert(b.last() != separator());
        assert(c.push(b.last()) =~= b);
        assert(seq![c].update(0, c.push(b.last())) =~= seq![b]);
    }
}

/// Splitting `a`, a separator and a value without separators gives the pieces
/// of `a` followed by that value.
pub proof fn lemma_split_append(a: Seq<char>, b: Seq<char>)
    requires
        free_of_sep(b),
    ensures
        split_fields(a + seq![separator()] + b) == split_fields(a).push(b),
    decreases b.len(),
{
    let s = a + seq![separator()] + b;
    if b.len() == 0 {
        assert(s.drop_last() =~= a);
        assert(s.last() == separator());
        assert(b =~= Seq::<char>::empty());
    } else {
        let c = b.drop_last();
        assert(free_of_sep(c));
        lemma_split_append(a, c);
        assert(s.drop_last() =~= a + seq![separator()] + c);
        assert(s.last() == b.last());
        assert(c.push(b.last()) =~= b);
        assert(split_fields(a).push(c).update(split_fields(a).len() as int, c.push(b.last()))
            =~= split_fields(a).push(b));
    }
}

/// Joining values that hold no separator and splitting the result gives the
/// values back.
pub proof fn lemma_split_join(parts: Seq<Seq<char>>)
    requires
        parts.len() >= 1,
        forall|k: int| 0 <= k < parts.len() ==> free_of_sep(#[trigger] parts[k]),
    ensures
        split_fields(join_fields(parts)) == parts,
    decreases parts.len(),
{
    if parts.len() == 1 {
        lemma_split_free(parts[0]);
        assert(seq![parts[0]] =~= parts);
    } else {
        let init = parts.drop_last();
        assert forall|k: int| 0 <= k < init.len() implies free_of_sep(#[trigger] init[k]) by {
            assert(init[k] == parts[k]);
        }
        lemma_split_join(init);
        assert(free_of_sep(parts[parts.len() - 1]));
        lemma_split_append(join_fields(init), parts.last());
        assert(init.push(parts.last()) =~= parts);
    }
}

/// Splitting and joining again gives the text back.
pub proof fn lemma_join_split(s: Seq<char>)
    ensures
        join_fields(split_fields(s)) == s,
    decreases s.len(),
{
    if s.len() == 0 {
        assert(s =~= Seq::<char>::empty());
    } else {
        let t = s.drop_last();
        let c = s.last();
        let p = split_fields(t);
        lemma_split_nonempty(t);
        lemma_join_split(t);
        if c == separator() {
            assert(p.push(Seq::empty()).drop_last() =~= p);
            assert(t + seq![separator()] + Seq::<char>::empty() =~= s);
        } else {
            let q = p.update(p.len() - 1, p.last().push(c));
            if p.len() == 1 {
                assert(t.push(c) =~= s);
            } else {
                assert(q.drop_last() =~= p.drop_last());
                assert(join_fields(p.drop_last()) + seq![separator()] + p.last().push(c)
                    =~= (join_fields(p.drop_last()) + seq![separator()] + p.last()).push(c));
                assert(t.push(c) =~= s);
            }
        }
    }
}

/// The words of a command, each followed by one space.
pub open spec fn command_text(words: Seq<Seq<char>>) -> Seq<char>
    decreases words.len(),
{
    if words.len() == 0 {
        Seq::empty()
    } else {
        command_text(words.drop_last()) + words.last() + seq![' ']
    }
}

/// The command made of `args[from..]`, each word followed by one space.
pub fn command_from(args: &Vec<String>, from: usize) -> (r: String)
    requires
        from <= args@.len(),
    ensures
        r@ == command_text(texts(args@).subrange(from as int, args@.len() as int)),
{
    let mut r = String::new();
    let mut i: usize = from;
    assert(texts(args@).subrange(from as int, from as int) =~= Seq::<Seq<char>>::empty());
    while i < args.len()
        invariant
            from <= i <= args@.len(),
            r@ == command_text(texts(args@).subrange(from as int, i as int)),
        decreases args@.len() - i,
    {
        let ghost done = texts(args@).subrange(from as int, i as int);
        let ghost next = texts(args@).subrange(from as int, i + 1);
        assert(next.drop_last() =~= done);
        r.append(args[i].as_str());
        r.append(" ");
        proof {
            reveal_strlit(" ");
        }
        assert(r@ =~= command_text(done) + next.last() + seq![' ']);
        i = i + 1;
    }
    r
}

/// Whether the two texts hold the same characters.
pub fn same_text(a: &str, b: &str) -> (r: bool)
    ensures
        r == (a@ == b@),
{
    let n = a.unicode_len();
    if n != b.unicode_len() {
        return false;
    }
    let mut i: usize = 0;
    while i < n
        invariant
            n == a@.len() == b@.len(),
            i <= n,
            forall|k: int| 0 <= k < i ==> a@[k] == b@[k],
        decreases n - i,
    {
        if a.get_char(i) != b.get_char(i) {
            return false;
        }
        i = i + 1;
    }
    assert(a@ =~= b@);
    true
}

/// Whether the text holds no separator.
pub fn has_no_sep(s: &str) -> (r: bool)
    ensures
        r == free_of_sep(s@),
{
    let n = s.unicode_len();
    let mut i: usize = 0;
    while i < n
        invariant
            n == s@.len(),
            i <= n,
            forall|k: int| 0 <= k < i ==> s@[k] != separator(),
        decreases n - i,
    {
        if s.get_char(i) == '|' {
            return false;
        }
        i = i + 1;
    }
    true
}

/// The pieces of `s` between separators.
pub fn split_text(s: &str) -> (r: Vec<String>)
    ensures
        texts(r@) == split_fields(s@),
{
    let n = s.unicode_len();
    let mut done: Vec<String> = Vec::new();
    let mut start: usize = 0;
    let mut i: usize = 0;
    assert(texts(done@) =~= Seq::<Seq<char>>::empty());
    assert(s@.subrange(0, 0) =~= Seq::<char>::empty());
    while i < n
        invariant
            n == s@.len(),
            start <= i <= n,
            split_fields(s@.subrange(0, i as int)) == texts(done@).push(
                s@.subrange(start as int, i as int),
            ),
        decreases n - i,
    {
        let c = s.get_char(i);
        let ghost before = s@.subrange(0, i as int);
        let ghost after = s@.subrange(0, i + 1);
        assert(after.drop_last() =~= before);
        assert(after.last() == c);
        if c == '|' {
            let piece = String::from_str(s.substring_char(start, i));
            let ghost prev = done@;
            done.push(piece);
            assert(texts(done@) =~= texts(prev).push(s@.subrange(start as int, i as int)));
            start = i + 1;
            assert(s@.subrange(start as int, i + 1) =~= Seq::<char>::empty());
        } else {
            proof { lemma_split_nonempty(before); }
            assert(s@.subrange(start as int, i + 1) =~= s@.subrange(start as int, i as int).push(c));
        }
        i = i + 1;
    }
    let last = String::from_str(s.substring_char(start, n));
    let ghost prev = done@;
    done.push(last);
    assert(s@.subrange(0, n as int) =~= s@);
    assert(texts(done@) =~= texts(prev).push(s@.subrange(start as int, n as int)));
    done
}

/// The values joined with one separator between neighbours.
pub fn join_text(parts: &Vec<String>) -> (r: String)
    ensures
        r@ == join_fields(texts(parts@)),
{
    let n = parts.len();
    if n == 0 {
        return String::new();
    }
    let mut r = parts[0].clone();
    let mut i: usize = 1;
    assert(texts(parts@).subrange(0, 1) =~= seq![parts@[0]@]);
    while i < n
        invariant
            n == parts@.len(),
            1 <= i <= n,
            r@ == join_fields(texts(parts@).subrange(0, i as int)),
        decreases n - i,
    {
        let ghost head = texts(parts@).subrange(0, i as int);
        let ghost next = texts(parts@).subrange(0, i + 1);
        assert(next.drop_last() =~= head);
        r.append("|");
        r.append(parts[i].as_str());
        proof {
            reveal_strlit("|");
        }
        assert(r@ =~= join_fields(head) + seq![separator()] + next.last());
        i = i + 1;
    }
    assert(texts(parts@).subrange(0, n as int) =~= texts(parts@));
    r
}

} // verus!
