use vstd::prelude::*;

verus! {

/// The escaped form of a candidate string: every single quote is prefixed
/// with a backslash, so the value can stand inside a quoted command
/// argument; all other characters are kept as they are.
pub open spec fn escape_spec(s: Seq<char>) -> Seq<char>
    decreases s.len(),
{
    if s.len() == 0 {
        Seq::empty()
    } else if s[0] == '\'' {
        seq!['\\', '\''] + escape_spec(s.drop_first())
    } else {
        seq![s[0]] + escape_spec(s.drop_first())
    }
}

/// The inverse reading of an escaped string: a backslash directly before a
/// single quote is dropped, everything else is kept.
pub open spec fn unescape_spec(s: Seq<char>) -> Seq<char>
    decreases s.len(),
{
    if s.len() == 0 {
        Seq::empty()
    } else if s.len() >= 2 && s[0] == '\\' && s[1] == '\'' {
        seq!['\''] + unescape_spec(s.skip(2))
    } else {
        seq![s[0]] + unescape_spec(s.drop_first())
    }
}

/// Escaping distributes over concatenation.
pub proof fn lemma_escape_append(a: Seq<char>, b: Seq<char>)
    ensures
        escape_spec(a + b) == escape_spec(a) + escape_spec(b),
    decreases a.len(),
{
    if a.len() == 0 {
        assert(a + b =~= b);
        assert(escape_spec(a) + escape_spec(b) =~= escape_spec(b));
    } else {
        assert((a + b).drop_first() =~= a.drop_first() + b);
        lemma_escape_append(a.drop_first(), b);
        if a[0] == '\'' {
            assert(seq!['\\', '\''] + (escape_spec(a.drop_first()) + escape_spec(b)) =~= (
            seq!['\\', '\''] + escape_spec(a.drop_first())) + escape_spec(b));
        } else {
            assert(seq![a[0]] + (escape_spec(a.drop_first()) + escape_spec(b)) =~= (seq![a[0]]
                + escape_spec(a.drop_first())) + escape_spec(b));
        }
    }
}

/// An escaped string never begins with a bare single quote.
proof fn lemma_escape_first_not_quote(s: Seq<char>)
    ensures
        escape_spec(s).len() > 0 ==> escape_spec(s)[0] != '\'',
{
}

/// Escaping round-trip: reading an escaped string back undoes the escaping
/// exactly, for every input; in particular no information is lost and no
/// quote is left unguarded.
pub proof fn lemma_unescape_escape(s: Seq<char>)
    ensures
        unescape_spec(escape_spec(s)) == s,
    decreases s.len(),
{
    if s.len() == 0 {
        assert(unescape_spec(escape_spec(s)) =~= s);
    } else {
        let rest = s.drop_first();
        lemma_unescape_escape(rest);
        if s[0] == '\'' {
            let e = seq!['\\', '\''] + escape_spec(rest);
            assert(escape_spec(s) == e);
            assert(e.len() >= 2 && e[0] == '\\' && e[1] == '\'');
            assert(e.skip(2) =~= escape_spec(rest));
            assert(seq!['\''] + rest =~= s);
        } else {
            let e = seq![s[0]] + escape_spec(rest);
            assert(escape_spec(s) == e);
            lemma_escape_first_not_quote(rest);
            assert(!(e.len() >= 2 && e[0] == '\\' && e[1] == '\''));
            assert(e.drop_first() =~= escape_spec(rest));
            assert(seq![s[0]] + rest =~= s);
        }
    }
}

/// Escaping is injective: distinct candidates are still distinct after
/// escaping, so a wordlist of distinct passwords yields distinct queue
/// entries.
pub proof fn lemma_escape_injective(a: Seq<char>, b: Seq<char>)
    requires
        escape_spec(a) == escape_spec(b),
    ensures
        a == b,
{
    lemma_unescape_escape(a);
    lemma_unescape_escape(b);
}

/// Relies on String::push: appends exactly one character at the end.
#[verifier::external_body]
pub(crate) fn push_char(s: &mut String, c: char)
    ensures
        final(s)@ == old(s)@.push(c),
{
    s.push(c);
}

/// Escapes one candidate string for safe embedding inside a quoted command
/// argument: each `'` becomes `\'`, applied exactly once over the input.
pub fn escape_quotes(s: &String) -> (r: String)
    ensures
        r@ == escape_spec(s@),
{
    let st = s.as_str();
    let len = st.unicode_len();
    let mut r = String::new();
    let mut i: usize = 0;
    while i < len
        invariant
            len == st@.len(),
            st@ == s@,
            i <= len,
            r@ == escape_spec(s@.take(i as int)),
        decreases len - i,
    {
        let c = st.get_char(i);
        if c == '\'' {
            push_char(&mut r, '\\');
            push_char(&mut r, '\'');
        } else {
            push_char(&mut r, c);
        }
        proof {
            let prefix = s@.take(i as int);
            let one = seq![s@[i as int]];
            assert(s@.take(i + 1) =~= prefix + one);
            lemma_escape_append(prefix, one);
            assert(one.drop_first() =~= Seq::<char>::empty());
            assert(escape_spec(Seq::<char>::empty()) == Seq::<char>::empty());
            if s@[i as int] == '\'' {
                assert(escape_spec(one) =~= seq!['\\', '\'']);
                assert(r@ =~= escape_spec(prefix) + escape_spec(one));
            } else {
                assert(escape_spec(one) =~= one);
                assert(r@ =~= escape_spec(prefix) + escape_spec(one));
            }
        }
        i += 1;
    }
    proof {
        assert(s@.take(len as int) =~= s@);
    }
    r
}

/// Escapes a whole list of candidate lines, one pass each: the compute part
/// of streaming a wordlist, before the candidates are handed out.
pub fn escape_lines(lines: &Vec<String>) -> (r: Vec<String>)
    ensures
        r@.len() == lines@.len(),
        forall|i: int| 0 <= i < lines@.len() ==> r@[i]@ == escape_spec(lines@[i]@),
{
    let mut r: Vec<String> = Vec::new();
    let mut i: usize = 0;
    while i < lines.len()
        invariant
            i <= lines@.len(),
            r@.len() == i,
            forall|j: int| 0 <= j < i ==> r@[j]@ == escape_spec(lines@[j]@),
        decreases lines@.len() - i,
    {
        r.push(escape_quotes(&lines[i]));
        i += 1;
    }
    r
}

} // verus!
