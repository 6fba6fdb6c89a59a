//! The persisted JSON form of the four index documents, written and read by
//! this library itself: encoders that produce the exact document, strict
//! parsers that read it back, and round-trip proofs that loading what was
//! saved reproduces the identical entities.

use vstd::prelude::*;
use vstd::string::*;

use crate::entities::{
    ChatData, ChatDataView, ChatMessage, ChatMessageView, ChatMeta, ChatMetaView, ChatsIndex,
    ChatsIndexView, FolderMeta, FolderMetaView, FoldersIndex, FoldersIndexView, WorkspaceMeta,
    WorkspaceMetaView, WorkspacesIndex, WorkspacesIndexView,
};
use crate::strutil::push_char;

verus! {

/// How one character is written inside a JSON string: quote, backslash,
/// newline, carriage return and tab are escaped, all else stands as itself.
pub open spec fn esc_char(c: char) -> Seq<char> {
    if c == '"' {
        seq!['\\', '"']
    } else if c == '\\' {
        seq!['\\', '\\']
    } else if c == '\n' {
        seq!['\\', 'n']
    } else if c == '\r' {
        seq!['\\', 'r']
    } else if c == '\t' {
        seq!['\\', 't']
    } else {
        seq![c]
    }
}

/// What an escape code after a backslash stands for; anything else is
/// rejected.
pub open spec fn unesc_char(c: char) -> Option<char> {
    if c == '"' {
        Some('"')
    } else if c == '\\' {
        Some('\\')
    } else if c == 'n' {
        Some('\n')
    } else if c == 'r' {
        Some('\r')
    } else if c == 't' {
        Some('\t')
    } else {
        None
    }
}

/// The escaped body of a string, without the enclosing quotes.
pub open spec fn spec_enc_str_body(s: Seq<char>) -> Seq<char>
    decreases s.len(),
{
    if s.len() == 0 {
        Seq::empty()
    } else {
        esc_char(s.first()) + spec_enc_str_body(s.drop_first())
    }
}

/// A whole encoded string: quote, escaped body, quote.
pub open spec fn spec_enc_str(s: Seq<char>) -> Seq<char> {
    seq!['"'] + spec_enc_str_body(s) + seq!['"']
}

/// Parse the body of a string starting just after the opening quote,
/// up to and including the closing quote: the decoded characters and the
/// position just after the closing quote.
pub open spec fn spec_parse_str_body(s: Seq<char>, i: int) -> Option<(Seq<char>, int)>
    decreases s.len() - i,
{
    if i < 0 || i >= s.len() {
        None
    } else if s[i] == '"' {
        Some((Seq::empty(), i + 1))
    } else if s[i] == '\\' {
        if i + 1 < s.len() {
            match unesc_char(s[i + 1]) {
                Some(u) => match spec_parse_str_body(s, i + 2) {
                    Some(p) => Some((seq![u] + p.0, p.1)),
                    None => None,
                },
                None => None,
            }
        } else {
            None
        }
    } else {
        match spec_parse_str_body(s, i + 1) {
            Some(p) => Some((seq![s[i]] + p.0, p.1)),
            None => None,
        }
    }
}

/// Parse a whole string at position `i`: it must open with a quote.
pub open spec fn spec_parse_str(s: Seq<char>, i: int) -> Option<(Seq<char>, int)> {
    if 0 <= i < s.len() && s[i] == '"' {
        spec_parse_str_body(s, i + 1)
    } else {
        None
    }
}

/// The parsed body always ends after `i` and within the input.
pub proof fn lemma_parse_str_body_bounds(s: Seq<char>, i: int)
    requires
        spec_parse_str_body(s, i) is Some,
    ensures
        i < (spec_parse_str_body(s, i)->0).1 <= s.len(),
    decreases s.len() - i,
{
    if 0 <= i < s.len() {
        if s[i] == '"' {
        } else if s[i] == '\\' {
            lemma_parse_str_body_bounds(s, i + 2);
        } else {
            lemma_parse_str_body_bounds(s, i + 1);
        }
    }
}

/// Round trip of a string body: parsing an input whose characters from `i`
/// spell the escaped body of `v` and its closing quote yields `v` exactly,
/// ending after the quote.
pub proof fn lemma_parse_enc_str_body(s: Seq<char>, i: int, v: Seq<char>)
    requires
        0 <= i,
        i + spec_enc_str_body(v).len() + 1 <= s.len(),
        s.subrange(i, i + spec_enc_str_body(v).len() + 1) == spec_enc_str_body(v) + seq!['"'],
    ensures
        spec_parse_str_body(s, i) == Some((v, i + spec_enc_str_body(v).len() + 1)),
    decreases v.len(),
{
    let body = spec_enc_str_body(v);
    let j = i + body.len() + 1;
    if v.len() == 0 {
        assert(s[i] == (body + seq!['"'])[0]);
        assert(s[i] == '"');
    } else {
        let c = v.first();
        let e = esc_char(c);
        assert(body == e + spec_enc_str_body(v.drop_first()));
        let body2 = spec_enc_str_body(v.drop_first());
        assert(s.subrange(i + e.len(), j) =~= body2 + seq!['"']) by {
            assert(forall|k: int|
                0 <= k < body2.len() + 1 ==> #[trigger] s.subrange(i + e.len(), j)[k] == (body
                    + seq!['"'])[k + e.len()]);
        }
        lemma_parse_enc_str_body(s, i + e.len(), v.drop_first());
        if c == '"' || c == '\\' || c == '\n' || c == '\r' || c == '\t' {
            assert(e.len() == 2);
            assert(s[i] == (body + seq!['"'])[0]);
            assert(s[i] == '\\');
            assert(s[i + 1] == (body + seq!['"'])[1]);
            assert(unesc_char(s[i + 1]) == Some(c));
            assert(spec_parse_str_body(s, i) == Some((seq![c] + v.drop_first(), j)));
            assert(seq![c] + v.drop_first() =~= v);
        } else {
            assert(e.len() == 1);
            assert(s[i] == (body + seq!['"'])[0]);
            assert(s[i] == c);
            assert(s[i] != '"' && s[i] != '\\');
            assert(spec_parse_str_body(s, i) == Some((seq![c] + v.drop_first(), j)));
            assert(seq![c] + v.drop_first() =~= v);
        }
    }
}

/// Round trip of a whole string: parsing an input whose characters from `i`
/// spell the encoding of `v` yields `v` exactly, ending just after it.
pub proof fn lemma_parse_enc_str(s: Seq<char>, i: int, v: Seq<char>)
    requires
        0 <= i,
        i + spec_enc_str(v).len() <= s.len(),
        s.subrange(i, i + spec_enc_str(v).len()) == spec_enc_str(v),
    ensures
        spec_parse_str(s, i) == Some((v, i + spec_enc_str(v).len())),
{
    let enc = spec_enc_str(v);
    let body = spec_enc_str_body(v);
    assert(s[i] == enc[0]);
    assert(s[i] == '"');
    assert(s.subrange(i + 1, i + enc.len()) =~= body + seq!['"']) by {
        assert(forall|k: int|
            0 <= k < body.len() + 1 ==> #[trigger] s.subrange(i + 1, i + enc.len())[k] == enc[k
                + 1]);
    }
    lemma_parse_enc_str_body(s, i + 1, v);
}

/// Append the encoding of `v` to `out`.
pub fn write_str(out: &mut String, v: &str)
    ensures
        final(out)@ == old(out)@ + spec_enc_str(v@),
{
    push_char(out, '"');
    let n = v.unicode_len();
    let mut i: usize = 0;
    proof {
        assert(v@.subrange(0, n as int) =~= v@);
        assert(out@ =~= old(out)@ + seq!['"']);
    }
    while i < n
        invariant
            0 <= i <= n,
            n == v@.len(),
            out@ + spec_enc_str_body(v@.subrange(i as int, n as int)) == old(out)@ + seq!['"']
                + spec_enc_str_body(v@),
        decreases n - i,
    {
        let c = v.get_char(i);
        proof {
            let tail = v@.subrange(i as int, n as int);
            assert(tail.first() == c);
            assert(tail.drop_first() =~= v@.subrange(i + 1, n as int));
            assert(spec_enc_str_body(tail) == esc_char(c) + spec_enc_str_body(
                v@.subrange(i + 1, n as int),
            ));
        }
        if c == '"' {
            push_char(out, '\\');
            push_char(out, '"');
        } else if c == '\\' {
            push_char(out, '\\');
            push_char(out, '\\');
        } else if c == '\n' {
            push_char(out, '\\');
            push_char(out, 'n');
        } else if c == '\r' {
            push_char(out, '\\');
            push_char(out, 'r');
        } else if c == '\t' {
            push_char(out, '\\');
            push_char(out, 't');
        } else {
            push_char(out, c);
        }
        proof {
            assert(out@ + spec_enc_str_body(v@.subrange(i + 1, n as int)) =~= old(out)@
                + seq!['"'] + spec_enc_str_body(v@));
        }
        i = i + 1;
    }
    push_char(out, '"');
    proof {
        assert(v@.subrange(n as int, n as int) =~= Seq::<char>::empty());
        assert(final(out)@ =~= old(out)@ + spec_enc_str(v@));
    }
}

/// Parse a string at `start`, returning the decoded value and the position
/// just after its closing quote.
pub fn parse_str(s: &str, start: usize) -> (r: Option<(String, usize)>)
    ensures
        match r {
            Some(p) => spec_parse_str(s@, start as int) == Some((p.0@, p.1 as int)) && start
                < p.1 <= s@.len(),
            None => spec_parse_str(s@, start as int) is None,
        },
{
    let n = s.unicode_len();
    if start >= n || s.get_char(start) != '"' {
        return None;
    }
    let mut acc = String::new();
    let mut i: usize = start + 1;
    loop
        invariant
            start + 1 <= i <= n,
            n == s@.len(),
            s@[start as int] == '"',
            (match spec_parse_str_body(s@, i as int) {
                Some(p) => spec_parse_str_body(s@, start + 1) == Some((acc@ + p.0, p.1)),
                None => spec_parse_str_body(s@, start + 1) is None,
            }),
        decreases n - i,
    {
        if i >= n {
            return None;
        }
        let c = s.get_char(i);
        if c == '"' {
            proof {
                assert(spec_parse_str_body(s@, i as int) == Some(
                    (Seq::<char>::empty(), i + 1),
                ));
                assert(acc@ + Seq::<char>::empty() =~= acc@);
                lemma_parse_str_body_bounds(s@, start + 1);
            }
            return Some((acc, i + 1));
        } else if c == '\\' {
            if i + 1 >= n {
                return None;
            }
            let e = s.get_char(i + 1);
            let u: char;
            if e == '"' {
                u = '"';
            } else if e == '\\' {
                u = '\\';
            } else if e == 'n' {
                u = '\n';
            } else if e == 'r' {
                u = '\r';
            } else if e == 't' {
                u = '\t';
            } else {
                return None;
            }
            proof {
                assert(unesc_char(e) == Some(u));
                match spec_parse_str_body(s@, i + 2) {
                    Some(p) => {
                        assert(spec_parse_str_body(s@, i as int) == Some((seq![u] + p.0, p.1)));
                        assert(acc@.push(u) + p.0 =~= acc@ + (seq![u] + p.0));
                    },
                    None => {},
                }
            }
            push_char(&mut acc, u);
            i = i + 2;
        } else {
            proof {
                match spec_parse_str_body(s@, i + 1) {
                    Some(p) => {
                        assert(spec_parse_str_body(s@, i as int) == Some((seq![c] + p.0, p.1)));
                        assert(acc@.push(c) + p.0 =~= acc@ + (seq![c] + p.0));
                    },
                    None => {},
                }
            }
            push_char(&mut acc, c);
            i = i + 1;
        }
    }
}

/// A concatenation standing at `i` splits into its two parts.
pub proof fn lemma_split_subrange(s: Seq<char>, i: int, a: Seq<char>, b: Seq<char>)
    requires
        0 <= i,
        i + a.len() + b.len() <= s.len(),
        s.subrange(i, i + a.len() + b.len()) == a + b,
    ensures
        s.subrange(i, i + a.len()) == a,
        s.subrange(i + a.len(), i + a.len() + b.len()) == b,
{
    assert forall|k: int| 0 <= k < a.len() implies #[trigger] s.subrange(i, i + a.len())[k]
        == a[k] by {
        assert(s.subrange(i, i + a.len() + b.len())[k] == (a + b)[k]);
    }
    assert(s.subrange(i, i + a.len()) =~= a);
    assert forall|k: int|
        0 <= k < b.len() implies #[trigger] s.subrange(i + a.len(), i + a.len() + b.len())[k]
        == b[k] by {
        let whole = s.subrange(i, i + a.len() + b.len());
        assert(whole[k + a.len()] == s[i + (k + a.len())]);
        assert(whole[k + a.len()] == (a + b)[k + a.len()]);
        assert((a + b)[k + a.len()] == b[k]);
        assert(s.subrange(i + a.len(), i + a.len() + b.len())[k] == s[i + a.len() + k]);
    }
    assert(s.subrange(i + a.len(), i + a.len() + b.len()) =~= b);
}

/// Whether the characters of `s` from `i` spell out `lit`.
pub open spec fn spec_lit_at(s: Seq<char>, i: int, lit: Seq<char>) -> bool {
    0 <= i && i + lit.len() <= s.len() && s.subrange(i, i + lit.len()) == lit
}

/// Check that `lit` stands at `start` and step over it.
pub fn expect_lit(s: &str, start: usize, lit: &str) -> (r: Option<usize>)
    ensures
        match r {
            Some(j) => spec_lit_at(s@, start as int, lit@) && j == start + lit@.len() && j
                <= s@.len(),
            None => !spec_lit_at(s@, start as int, lit@),
        },
{
    let n = s.unicode_len();
    let m = lit.unicode_len();
    if m > n || start > n - m {
        return None;
    }
    let mut k: usize = 0;
    while k < m
        invariant
            0 <= k <= m,
            n == s@.len(),
            m == lit@.len(),
            start + m <= n,
            forall|t: int| 0 <= t < k ==> s@[start + t] == lit@[t],
        decreases m - k,
    {
        if s.get_char(start + k) != lit.get_char(k) {
            proof {
                assert(s@.subrange(start as int, start + lit@.len())[k as int] == s@[start + k]);
            }
            return None;
        }
        k = k + 1;
    }
    proof {
        assert(s@.subrange(start as int, start + lit@.len()) =~= lit@);
    }
    Some(start + m)
}


/// Step over `lit` at position `i`.
pub open spec fn spec_parse_lit(s: Seq<char>, i: int, lit: Seq<char>) -> Option<int> {
    if spec_lit_at(s, i, lit) {
        Some(i + lit.len())
    } else {
        None
    }
}

/// The second and later items of a string list, each preceded by a comma.
pub open spec fn spec_enc_str_sep_items(vs: Seq<Seq<char>>) -> Seq<char>
    decreases vs.len(),
{
    if vs.len() == 0 {
        Seq::empty()
    } else {
        seq![','] + spec_enc_str(vs.first()) + spec_enc_str_sep_items(vs.drop_first())
    }
}

/// The encoded items of a string list, comma-separated, without brackets.
pub open spec fn spec_enc_str_items(vs: Seq<Seq<char>>) -> Seq<char> {
    if vs.len() == 0 {
        Seq::empty()
    } else {
        spec_enc_str(vs.first()) + spec_enc_str_sep_items(vs.drop_first())
    }
}

/// A whole encoded string list.
pub open spec fn spec_enc_str_list(vs: Seq<Seq<char>>) -> Seq<char> {
    seq!['['] + spec_enc_str_items(vs) + seq![']']
}

/// Parse one or more comma-separated strings followed by the closing
/// bracket, which is consumed.
pub open spec fn spec_parse_str_items(s: Seq<char>, i: int) -> Option<(Seq<Seq<char>>, int)>
    decreases s.len() - i,
{
    match spec_parse_str(s, i) {
        Some(p) => {
            if i < p.1 && p.1 < s.len() {
                if s[p.1] == ',' {
                    match spec_parse_str_items(s, p.1 + 1) {
                        Some(q) => Some((seq![p.0] + q.0, q.1)),
                        None => None,
                    }
                } else if s[p.1] == ']' {
                    Some((seq![p.0], p.1 + 1))
                } else {
                    None
                }
            } else {
                None
            }
        },
        None => None,
    }
}

/// Parse a whole string list at `i`.
pub open spec fn spec_parse_str_list(s: Seq<char>, i: int) -> Option<(Seq<Seq<char>>, int)> {
    if 0 <= i < s.len() && s[i] == '[' {
        if i + 1 < s.len() && s[i + 1] == ']' {
            Some((Seq::empty(), i + 2))
        } else {
            spec_parse_str_items(s, i + 1)
        }
    } else {
        None
    }
}

/// Round trip of the items of a non-empty string list.
pub proof fn lemma_parse_enc_str_items(s: Seq<char>, i: int, vs: Seq<Seq<char>>)
    requires
        vs.len() >= 1,
        0 <= i,
        i + spec_enc_str_items(vs).len() + 1 <= s.len(),
        s.subrange(i, i + spec_enc_str_items(vs).len() + 1) == spec_enc_str_items(vs) + seq![']'],
    ensures
        spec_parse_str_items(s, i) == Some((vs, i + spec_enc_str_items(vs).len() + 1)),
    decreases vs.len(),
{
    let items = spec_enc_str_items(vs);
    let j = i + items.len() + 1;
    let e = spec_enc_str(vs.first());
    let rest = vs.drop_first();
    if vs.len() == 1 {
        assert(spec_enc_str_sep_items(rest) =~= Seq::<char>::empty());
        assert(items =~= e);
        assert(items + seq![']'] =~= e + seq![']']);
        lemma_split_subrange(s, i, e, seq![']']);
        lemma_parse_enc_str(s, i, vs.first());
        assert(s.subrange(i + e.len(), i + e.len() + 1)[0] == ']');
        assert(s[i + e.len()] == ']');
        assert(spec_parse_str_items(s, i) == Some((seq![vs.first()], j)));
        assert(seq![vs.first()] =~= vs);
    } else {
        let sep = spec_enc_str_sep_items(rest);
        assert(items == e + sep);
        assert(sep == seq![','] + spec_enc_str(rest.first()) + spec_enc_str_sep_items(
            rest.drop_first(),
        ));
        assert(items + seq![']'] =~= e + (seq![','] + (spec_enc_str_items(rest) + seq![']'])))
            by {
            assert(spec_enc_str_items(rest) == spec_enc_str(rest.first())
                + spec_enc_str_sep_items(rest.drop_first()));
        }
        lemma_split_subrange(s, i, e, seq![','] + (spec_enc_str_items(rest) + seq![']']));
        lemma_parse_enc_str(s, i, vs.first());
        lemma_split_subrange(s, i + e.len(), seq![','], spec_enc_str_items(rest) + seq![']']);
        assert(s.subrange(i + e.len(), i + e.len() + 1)[0] == ',');
        assert(s[i + e.len()] == ',');
        lemma_parse_enc_str_items(s, i + e.len() + 1, rest);
        assert(spec_parse_str_items(s, i) == Some((seq![vs.first()] + rest, j)));
        assert(seq![vs.first()] + rest =~= vs);
    }
}

/// Round trip of a whole string list.
pub proof fn lemma_parse_enc_str_list(s: Seq<char>, i: int, vs: Seq<Seq<char>>)
    requires
        0 <= i,
        i + spec_enc_str_list(vs).len() <= s.len(),
        s.subrange(i, i + spec_enc_str_list(vs).len()) == spec_enc_str_list(vs),
    ensures
        spec_parse_str_list(s, i) == Some((vs, i + spec_enc_str_list(vs).len())),
{
    let enc = spec_enc_str_list(vs);
    let items = spec_enc_str_items(vs);
    assert(s[i] == enc[0]);
    assert(s[i] == '[');
    assert(enc =~= seq!['['] + (items + seq![']']));
    lemma_split_subrange(s, i, seq!['['], items + seq![']']);
    if vs.len() == 0 {
        assert(s.subrange(i + 1, i + enc.len())[0] == ']');
        assert(s[i + 1] == ']');
    } else {
        assert(s.subrange(i + 1, i + enc.len())[0] == items[0]);
        assert(items[0] == spec_enc_str(vs.first())[0]);
        assert(s[i + 1] == '"');
        lemma_parse_enc_str_items(s, i + 1, vs);
    }
}

/// Append the encoding of a string list to `out`.
pub fn write_str_list(out: &mut String, vs: &Vec<String>)
    ensures
        final(out)@ == old(out)@ + spec_enc_str_list(vs@.map_values(|x: String| x@)),
{
    let ghost views = vs@.map_values(|x: String| x@);
    push_char(out, '[');
    if vs.len() == 0 {
        push_char(out, ']');
        proof {
            assert(final(out)@ =~= old(out)@ + spec_enc_str_list(views));
        }
        return ;
    }
    write_str(out, vs[0].as_str());
    let mut i: usize = 1;
    proof {
        assert(views.subrange(1, views.len() as int) =~= views.drop_first());
        assert(out@ =~= old(out)@ + seq!['['] + spec_enc_str(views.first()));
    }
    while i < vs.len()
        invariant
            1 <= i <= vs.len(),
            views == vs@.map_values(|x: String| x@),
            views.len() == vs@.len(),
            out@ + spec_enc_str_sep_items(views.subrange(i as int, views.len() as int)) == old(
                out,
            )@ + seq!['['] + spec_enc_str_items(views),
        decreases vs.len() - i,
    {
        proof {
            let tail = views.subrange(i as int, views.len() as int);
            assert(tail.first() == views[i as int]);
            assert(tail.drop_first() =~= views.subrange(i + 1, views.len() as int));
        }
        push_char(out, ',');
        write_str(out, vs[i].as_str());
        i = i + 1;
    }
    push_char(out, ']');
    proof {
        assert(views.subrange(views.len() as int, views.len() as int) =~= Seq::<
            Seq<char>,
        >::empty());
        assert(final(out)@ =~= old(out)@ + spec_enc_str_list(views));
    }
}

/// Parse a string list at `start`.
pub fn parse_str_list(s: &str, start: usize) -> (r: Option<(Vec<String>, usize)>)
    ensures
        match r {
            Some(p) => spec_parse_str_list(s@, start as int) == Some(
                (p.0@.map_values(|x: String| x@), p.1 as int),
            ) && start < p.1 <= s@.len(),
            None => spec_parse_str_list(s@, start as int) is None,
        },
{
    let n = s.unicode_len();
    if start >= n || s.get_char(start) != '[' {
        return None;
    }
    if start + 1 < n && s.get_char(start + 1) == ']' {
        let out: Vec<String> = Vec::new();
        proof {
            assert(out@.map_values(|x: String| x@) =~= Seq::<Seq<char>>::empty());
        }
        return Some((out, start + 2));
    }
    let mut acc: Vec<String> = Vec::new();
    let mut i: usize = start + 1;
    proof {
        assert(acc@.map_values(|x: String| x@) =~= Seq::<Seq<char>>::empty());
    }
    loop
        invariant
            start + 1 <= i <= n,
            n == s@.len(),
            s@[start as int] == '[',
            !(start + 1 < s@.len() && s@[start as int + 1] == ']'),
            (match spec_parse_str_items(s@, i as int) {
                Some(q) => spec_parse_str_items(s@, start + 1) == Some(
                    (acc@.map_values(|x: String| x@) + q.0, q.1),
                ),
                None => spec_parse_str_items(s@, start + 1) is None,
            }),
        decreases n - i,
    {
        match parse_str(s, i) {
            None => {
                return None;
            },
            Some((v, j)) => {
                let ghost accv = acc@.map_values(|x: String| x@);
                acc.push(v);
                proof {
                    assert(acc@.map_values(|x: String| x@) =~= accv.push(
                        acc@[acc@.len() - 1]@,
                    ));
                }
                if j < n && s.get_char(j) == ',' {
                    proof {
                        match spec_parse_str_items(s@, j + 1) {
                            Some(q) => {
                                assert(spec_parse_str_items(s@, i as int) == Some(
                                    (seq![v@] + q.0, q.1),
                                ));
                                assert(accv.push(v@) + q.0 =~= accv + (seq![v@] + q.0));
                            },
                            None => {},
                        }
                    }
                    i = j + 1;
                } else if j < n && s.get_char(j) == ']' {
                    proof {
                        assert(spec_parse_str_items(s@, i as int) == Some((seq![v@], j + 1)));
                        assert(accv.push(v@) =~= accv + seq![v@]);
                    }
                    return Some((acc, j + 1));
                } else {
                    return None;
                }
            },
        }
    }
}

/// An optional string: the string itself, or `null`.
pub open spec fn spec_enc_opt_str(o: Option<Seq<char>>) -> Seq<char> {
    match o {
        Some(v) => spec_enc_str(v),
        None => "null"@,
    }
}

/// Parse an optional string at `i`: `null` or a quoted string.
pub open spec fn spec_parse_opt_str(s: Seq<char>, i: int) -> Option<(Option<Seq<char>>, int)> {
    if 0 <= i < s.len() && s[i] == 'n' {
        match spec_parse_lit(s, i, "null"@) {
            Some(j) => Some((None, j)),
            None => None,
        }
    } else {
        match spec_parse_str(s, i) {
            Some(p) => Some((Some(p.0), p.1)),
            None => None,
        }
    }
}

/// Round trip of an optional string.
pub proof fn lemma_parse_enc_opt_str(s: Seq<char>, i: int, v: Option<Seq<char>>)
    requires
        0 <= i,
        i + spec_enc_opt_str(v).len() <= s.len(),
        s.subrange(i, i + spec_enc_opt_str(v).len()) == spec_enc_opt_str(v),
    ensures
        spec_parse_opt_str(s, i) == Some((v, i + spec_enc_opt_str(v).len())),
{
    reveal_strlit("null");
    match v {
        Some(x) => {
            assert(s[i] == spec_enc_str(x)[0]);
            assert(s[i] == '"');
            lemma_parse_enc_str(s, i, x);
        },
        None => {
            assert(s[i] == "null"@[0]);
            assert(s[i] == 'n');
            assert(spec_lit_at(s, i, "null"@));
        },
    }
}

/// Append an optional string to `out`.
pub fn write_opt_str(out: &mut String, o: &Option<String>)
    ensures
        final(out)@ == old(out)@ + spec_enc_opt_str(
            match o {
                Some(v) => Some(v@),
                None => None,
            },
        ),
{
    match o {
        Some(v) => {
            write_str(out, v.as_str());
        },
        None => {
            out.append("null");
        },
    }
}

/// Parse an optional string at `start`.
pub fn parse_opt_str(s: &str, start: usize) -> (r: Option<(Option<String>, usize)>)
    ensures
        match r {
            Some(p) => spec_parse_opt_str(s@, start as int) == Some(
                (
                    match p.0 {
                        Some(v) => Some(v@),
                        None => None,
                    },
                    p.1 as int,
                ),
            ) && start < p.1 <= s@.len(),
            None => spec_parse_opt_str(s@, start as int) is None,
        },
{
    let n = s.unicode_len();
    if start < n && s.get_char(start) == 'n' {
        match expect_lit(s, start, "null") {
            Some(j) => {
                proof {
                    reveal_strlit("null");
                }
                Some((None, j))
            },
            None => None,
        }
    } else {
        match parse_str(s, start) {
            Some((v, j)) => Some((Some(v), j)),
            None => None,
        }
    }
}

/// The encoded form of one message record.
pub open spec fn spec_enc_message(v: ChatMessageView) -> Seq<char> {
    "{\"role\":"@ + spec_enc_str(v.role) + ",\"content\":"@ + spec_enc_str(v.content) + "}"@
}

/// Parse one message record at `i`.
pub open spec fn spec_parse_message(s: Seq<char>, i: int) -> Option<(ChatMessageView, int)> {
    match spec_parse_lit(s, i, "{\"role\":"@) {
        Some(j0) => match spec_parse_str(s, j0) {
            Some(p0) => {
        match spec_parse_lit(s, p0.1, ",\"content\":"@) {
            Some(j1) => match spec_parse_str(s, j1) {
                Some(p1) => {
            match spec_parse_lit(s, p1.1, "}"@) {
                Some(jend) => Some((ChatMessageView { role: p0.0, content: p1.0 }, jend)),
                None => None,
            }
                },
                None => None,
            },
            None => None,
        }
            },
            None => None,
        },
        None => None,
    }
}

/// Round trip of one message record.
pub proof fn lemma_parse_enc_message(s: Seq<char>, i: int, v: ChatMessageView)
    requires
        0 <= i,
        i + spec_enc_message(v).len() <= s.len(),
        s.subrange(i, i + spec_enc_message(v).len()) == spec_enc_message(v),
    ensures
        spec_parse_message(s, i) == Some((v, i + spec_enc_message(v).len())),
{
    let l0 = "{\"role\":"@;
    let e0 = spec_enc_str(v.role);
    let l1 = ",\"content\":"@;
    let e1 = spec_enc_str(v.content);
    let lend = "}"@;
    assert(spec_enc_message(v) == l0 + e0 + l1 + e1 + lend);
    assert(s.subrange(i, i + spec_enc_message(v).len()) =~= l0 + (e0 + (l1 + (e1 + (lend)))));
    lemma_split_subrange(s, i, l0, e0 + (l1 + (e1 + (lend))));
    lemma_split_subrange(s, i + l0.len(), e0, l1 + (e1 + (lend)));
    lemma_parse_enc_str(s, i + l0.len(), v.role);
    lemma_split_subrange(s, i + l0.len() + e0.len(), l1, e1 + (lend));
    lemma_split_subrange(s, i + l0.len() + e0.len() + l1.len(), e1, lend);
    lemma_parse_enc_str(s, i + l0.len() + e0.len() + l1.len(), v.content);
}

/// Append the encoding of one message record to `out`.
pub fn write_message(out: &mut String, v: &ChatMessage)
    ensures
        final(out)@ == old(out)@ + spec_enc_message(v@),
{
    out.append("{\"role\":");
    write_str(out, v.role.as_str());
    out.append(",\"content\":");
    write_str(out, v.content.as_str());
    out.append("}");
    proof {
        assert(final(out)@ =~= old(out)@ + spec_enc_message(v@));
    }
}

/// Parse one message record at `start`.
pub fn parse_message(s: &str, start: usize) -> (r: Option<(ChatMessage, usize)>)
    ensures
        match r {
            Some(p) => spec_parse_message(s@, start as int) == Some((p.0@, p.1 as int))
                && start < p.1 <= s@.len(),
            None => spec_parse_message(s@, start as int) is None,
        },
{
    let j0 = match expect_lit(s, start, "{\"role\":") {
        Some(j) => j,
        None => { return None; },
    };
    let (f_role, k0) = match parse_str(s, j0) {
        Some(p) => p,
        None => { return None; },
    };
    let j1 = match expect_lit(s, k0, ",\"content\":") {
        Some(j) => j,
        None => { return None; },
    };
    let (f_content, k1) = match parse_str(s, j1) {
        Some(p) => p,
        None => { return None; },
    };
    let jend = match expect_lit(s, k1, "}") {
        Some(j) => j,
        None => { return None; },
    };
    let meta = ChatMessage { role: f_role, content: f_content };
    proof {
        assert(spec_parse_message(s@, start as int) == Some((meta@, jend as int)));
    }
    Some((meta, jend))
}

/// The encoded form of one workspace record.
pub open spec fn spec_enc_workspace(v: WorkspaceMetaView) -> Seq<char> {
    "{\"id\":"@ + spec_enc_str(v.id) + ",\"name\":"@ + spec_enc_str(v.name) + ",\"created_at\":"@ + spec_enc_str(v.created_at) + ",\"last_updated_at\":"@ + spec_enc_str(v.last_updated_at) + "}"@
}

/// Parse one workspace record at `i`.
pub open spec fn spec_parse_workspace(s: Seq<char>, i: int) -> Option<(WorkspaceMetaView, int)> {
    match spec_parse_lit(s, i, "{\"id\":"@) {
        Some(j0) => match spec_parse_str(s, j0) {
            Some(p0) => {
        match spec_parse_lit(s, p0.1, ",\"name\":"@) {
            Some(j1) => match spec_parse_str(s, j1) {
                Some(p1) => {
            match spec_parse_lit(s, p1.1, ",\"created_at\":"@) {
                Some(j2) => match spec_parse_str(s, j2) {
                    Some(p2) => {
                match spec_parse_lit(s, p2.1, ",\"last_updated_at\":"@) {
                    Some(j3) => match spec_parse_str(s, j3) {
                        Some(p3) => {
                    match spec_parse_lit(s, p3.1, "}"@) {
                        Some(jend) => Some((WorkspaceMetaView { id: p0.0, name: p1.0, created_at: p2.0, last_updated_at: p3.0 }, jend)),
                        None => None,
                    }
                        },
                        None => None,
                    },
                    None => None,
                }
                    },
                    None => None,
                },
                None => None,
            }
                },
                None => None,
            },
            None => None,
        }
            },
            None => None,
        },
        None => None,
    }
}

/// Round trip of one workspace record.
pub proof fn lemma_parse_enc_workspace(s: Seq<char>, i: int, v: WorkspaceMetaView)
    requires
        0 <= i,
        i + spec_enc_workspace(v).len() <= s.len(),
        s.subrange(i, i + spec_enc_workspace(v).len()) == spec_enc_workspace(v),
    ensures
        spec_parse_workspace(s, i) == Some((v, i + spec_enc_workspace(v).len())),
{
    let l0 = "{\"id\":"@;
    let e0 = spec_enc_str(v.id);
    let l1 = ",\"name\":"@;
    let e1 = spec_enc_str(v.name);
    let l2 = ",\"created_at\":"@;
    let e2 = spec_enc_str(v.created_at);
    let l3 = ",\"last_updated_at\":"@;
    let e3 = spec_enc_str(v.last_updated_at);
    let lend = "}"@;
    assert(spec_enc_workspace(v) == l0 + e0 + l1 + e1 + l2 + e2 + l3 + e3 + lend);
    assert(s.subrange(i, i + spec_enc_workspace(v).len()) =~= l0 + (e0 + (l1 + (e1 + (l2 + (e2 + (l3 + (e3 + (lend)))))))));
    lemma_split_subrange(s, i, l0, e0 + (l1 + (e1 + (l2 + (e2 + (l3 + (e3 + (lend))))))));
    lemma_split_subrange(s, i + l0.len(), e0, l1 + (e1 + (l2 + (e2 + (l3 + (e3 + (lend)))))));
    lemma_parse_enc_str(s, i + l0.len(), v.id);
    lemma_split_subrange(s, i + l0.len() + e0.len(), l1, e1 + (l2 + (e2 + (l3 + (e3 + (lend))))));
    lemma_split_subrange(s, i + l0.len() + e0.len() + l1.len(), e1, l2 + (e2 + (l3 + (e3 + (lend)))));
    lemma_parse_enc_str(s, i + l0.len() + e0.len() + l1.len(), v.name);
    lemma_split_subrange(s, i + l0.len() + e0.len() + l1.len() + e1.len(), l2, e2 + (l3 + (e3 + (lend))));
    lemma_split_subrange(s, i + l0.len() + e0.len() + l1.len() + e1.len() + l2.len(), e2, l3 + (e3 + (lend)));
    lemma_parse_enc_str(s, i + l0.len() + e0.len() + l1.len() + e1.len() + l2.len(), v.created_at);
    lemma_split_subrange(s, i + l0.len() + e0.len() + l1.len() + e1.len() + l2.len() + e2.len(), l3, e3 + (lend));
    lemma_split_subrange(s, i + l0.len() + e0.len() + l1.len() + e1.len() + l2.len() + e2.len() + l3.len(), e3, lend);
    lemma_parse_enc_str(s, i + l0.len() + e0.len() + l1.len() + e1.len() + l2.len() + e2.len() + l3.len(), v.last_updated_at);
}

/// Append the encoding of one workspace record to `out`.
pub fn write_workspace(out: &mut String, v: &WorkspaceMeta)
    ensures
        final(out)@ == old(out)@ + spec_enc_workspace(v@),
{
    out.append("{\"id\":");
    write_str(out, v.id.as_str());
    out.append(",\"name\":");
    write_str(out, v.name.as_str());
    out.append(",\"created_at\":");
    write_str(out, v.created_at.as_str());
    out.append(",\"last_updated_at\":");
    write_str(out, v.last_updated_at.as_str());
    out.append("}");
    proof {
        assert(final(out)@ =~= old(out)@ + spec_enc_workspace(v@));
    }
}

/// Parse one workspace record at `start`.
pub fn parse_workspace(s: &str, start: usize) -> (r: Option<(WorkspaceMeta, usize)>)
    ensures
        match r {
            Some(p) => spec_parse_workspace(s@, start as int) == Some((p.0@, p.1 as int))
                && start < p.1 <= s@.len(),
            None => spec_parse_workspace(s@, start as int) is None,
        },
{
    let j0 = match expect_lit(s, start, "{\"id\":") {
        Some(j) => j,
        None => { return None; },
    };
    let (f_id, k0) = match parse_str(s, j0) {
        Some(p) => p,
        None => { return None; },
    };
    let j1 = match expect_lit(s, k0, ",\"name\":") {
        Some(j) => j,
        None => { return None; },
    };
    let (f_name, k1) = match parse_str(s, j1) {
        Some(p) => p,
        None => { return None; },
    };
    let j2 = match expect_lit(s, k1, ",\"created_at\":") {
        Some(j) => j,
        None => { return None; },
    };
    let (f_created_at, k2) = match parse_str(s, j2) {
        Some(p) => p,
        None => { return None; },
    };
    let j3 = match expect_lit(s, k2, ",\"last_updated_at\":") {
        Some(j) => j,
        None => { return None; },
    };
    let (f_last_updated_at, k3) = match parse_str(s, j3) {
        Some(p) => p,
        None => { return None; },
    };
    let jend = match expect_lit(s, k3, "}") {
        Some(j) => j,
        None => { return None; },
    };
    let meta = WorkspaceMeta { id: f_id, name: f_name, created_at: f_created_at, last_updated_at: f_last_updated_at };
    proof {
        assert(spec_parse_workspace(s@, start as int) == Some((meta@, jend as int)));
    }
    Some((meta, jend))
}

/// The encoded form of one folder record.
pub open spec fn spec_enc_folder(v: FolderMetaView) -> Seq<char> {
    "{\"id\":"@ + spec_enc_str(v.id) + ",\"name\":"@ + spec_enc_str(v.name) + ",\"workspace_id\":"@ + spec_enc_str(v.workspace_id) + ",\"chat_ids\":"@ + spec_enc_str_list(v.chat_ids) + ",\"tags\":"@ + spec_enc_str_list(v.tags) + ",\"created_at\":"@ + spec_enc_str(v.created_at) + ",\"last_updated_at\":"@ + spec_enc_str(v.last_updated_at) + "}"@
}

/// Parse one folder record at `i`.
pub open spec fn spec_parse_folder(s: Seq<char>, i: int) -> Option<(FolderMetaView, int)> {
    match spec_parse_lit(s, i, "{\"id\":"@) {
        Some(j0) => match spec_parse_str(s, j0) {
            Some(p0) => {
        match spec_parse_lit(s, p0.1, ",\"name\":"@) {
            Some(j1) => match spec_parse_str(s, j1) {
                Some(p1) => {
            match spec_parse_lit(s, p1.1, ",\"workspace_id\":"@) {
                Some(j2) => match spec_parse_str(s, j2) {
                    Some(p2) => {
                match spec_parse_lit(s, p2.1, ",\"chat_ids\":"@) {
                    Some(j3) => match spec_parse_str_list(s, j3) {
                        Some(p3) => {
                    match spec_parse_lit(s, p3.1, ",\"tags\":"@) {
                        Some(j4) => match spec_parse_str_list(s, j4) {
                            Some(p4) => {
                        match spec_parse_lit(s, p4.1, ",\"created_at\":"@) {
                            Some(j5) => match spec_parse_str(s, j5) {
                                Some(p5) => {
                            match spec_parse_lit(s, p5.1, ",\"last_updated_at\":"@) {
                                Some(j6) => match spec_parse_str(s, j6) {
                                    Some(p6) => {
                                match spec_parse_lit(s, p6.1, "}"@) {
                                    Some(jend) => Some((FolderMetaView { id: p0.0, name: p1.0, workspace_id: p2.0, chat_ids: p3.0, tags: p4.0, created_at: p5.0, last_updated_at: p6.0 }, jend)),
                                    None => None,
                                }
                                    },
                                    None => None,
                                },
                                None => None,
                            }
                                },
                                None => None,
                            },
                            None => None,
                        }
                            },
                            None => None,
                        },
                        None => None,
                    }
                        },
                        None => None,
                    },
                    None => None,
                }
                    },
                    None => None,
                },
                None => None,
            }
                },
                None => None,
            },
            None => None,
        }
            },
            None => None,
        },
        None => None,
    }
}

/// Round trip of one folder record.
#[verifier::rlimit(80)]
pub proof fn lemma_parse_enc_folder(s: Seq<char>, i: int, v: FolderMetaView)
    requires
        0 <= i,
        i + spec_enc_folder(v).len() <= s.len(),
        s.subrange(i, i + spec_enc_folder(v).len()) == spec_enc_folder(v),
    ensures
        spec_parse_folder(s, i) == Some((v, i + spec_enc_folder(v).len())),
{
    let l0 = "{\"id\":"@;
    let e0 = spec_enc_str(v.id);
    let l1 = ",\"name\":"@;
    let e1 = spec_enc_str(v.name);
    let l2 = ",\"workspace_id\":"@;
    let e2 = spec_enc_str(v.workspace_id);
    let l3 = ",\"chat_ids\":"@;
    let e3 = spec_enc_str_list(v.chat_ids);
    let l4 = ",\"tags\":"@;
    let e4 = spec_enc_str_list(v.tags);
    let l5 = ",\"created_at\":"@;
    let e5 = spec_enc_str(v.created_at);
    let l6 = ",\"last_updated_at\":"@;
    let e6 = spec_enc_str(v.last_updated_at);
    let lend = "}"@;
    assert(spec_enc_folder(v) == l0 + e0 + l1 + e1 + l2 + e2 + l3 + e3 + l4 + e4 + l5 + e5 + l6 + e6 + lend);
    assert(s.subrange(i, i + spec_enc_folder(v).len()) =~= l0 + (e0 + (l1 + (e1 + (l2 + (e2 + (l3 + (e3 + (l4 + (e4 + (l5 + (e5 + (l6 + (e6 + (lend)))))))))))))));
    lemma_split_subrange(s, i, l0, e0 + (l1 + (e1 + (l2 + (e2 + (l3 + (e3 + (l4 + (e4 + (l5 + (e5 + (l6 + (e6 + (lend))))))))))))));
    lemma_split_subrange(s, i + l0.len(), e0, l1 + (e1 + (l2 + (e2 + (l3 + (e3 + (l4 + (e4 + (l5 + (e5 + (l6 + (e6 + (lend)))))))))))));
    lemma_parse_enc_str(s, i + l0.len(), v.id);
    lemma_split_subrange(s, i + l0.len() + e0.len(), l1, e1 + (l2 + (e2 + (l3 + (e3 + (l4 + (e4 + (l5 + (e5 + (l6 + (e6 + (lend))))))))))));
    lemma_split_subrange(s, i + l0.len() + e0.len() + l1.len(), e1, l2 + (e2 + (l3 + (e3 + (l4 + (e4 + (l5 + (e5 + (l6 + (e6 + (lend)))))))))));
    lemma_parse_enc_str(s, i + l0.len() + e0.len() + l1.len(), v.name);
    lemma_split_subrange(s, i + l0.len() + e0.len() + l1.len() + e1.len(), l2, e2 + (l3 + (e3 + (l4 + (e4 + (l5 + (e5 + (l6 + (e6 + (lend))))))))));
    lemma_split_subrange(s, i + l0.len() + e0.len() + l1.len() + e1.len() + l2.len(), e2, l3 + (e3 + (l4 + (e4 + (l5 + (e5 + (l6 + (e6 + (lend)))))))));
    lemma_parse_enc_str(s, i + l0.len() + e0.len() + l1.len() + e1.len() + l2.len(), v.workspace_id);
    lemma_split_subrange(s, i + l0.len() + e0.len() + l1.len() + e1.len() + l2.len() + e2.len(), l3, e3 + (l4 + (e4 + (l5 + (e5 + (l6 + (e6 + (lend))))))));
    lemma_split_subrange(s, i + l0.len() + e0.len() + l1.len() + e1.len() + l2.len() + e2.len() + l3.len(), e3, l4 + (e4 + (l5 + (e5 + (l6 + (e6 + (lend)))))));
    lemma_parse_enc_str_list(s, i + l0.len() + e0.len() + l1.len() + e1.len() + l2.len() + e2.len() + l3.len(), v.chat_ids);
    lemma_split_subrange(s, i + l0.len() + e0.len() + l1.len() + e1.len() + l2.len() + e2.len() + l3.len() + e3.len(), l4, e4 + (l5 + (e5 + (l6 + (e6 + (lend))))));
    lemma_split_subrange(s, i + l0.len() + e0.len() + l1.len() + e1.len() + l2.len() + e2.len() + l3.len() + e3.len() + l4.len(), e4, l5 + (e5 + (l6 + (e6 + (lend)))));
    lemma_parse_enc_str_list(s, i + l0.len() + e0.len() + l1.len() + e1.len() + l2.len() + e2.len() + l3.len() + e3.len() + l4.len(), v.tags);
    lemma_split_subrange(s, i + l0.len() + e0.len() + l1.len() + e1.len() + l2.len() + e2.len() + l3.len() + e3.len() + l4.len() + e4.len(), l5, e5 + (l6 + (e6 + (lend))));
    lemma_split_subrange(s, i + l0.len() + e0.len() + l1.len() + e1.len() + l2.len() + e2.len() + l3.len() + e3.len() + l4.len() + e4.len() + l5.len(), e5, l6 + (e6 + (lend)));
    lemma_parse_enc_str(s, i + l0.len() + e0.len() + l1.len() + e1.len() + l2.len() + e2.len() + l3.len() + e3.len() + l4.len() + e4.len() + l5.len(), v.created_at);
    lemma_split_subrange(s, i + l0.len() + e0.len() + l1.len() + e1.len() + l2.len() + e2.len() + l3.len() + e3.len() + l4.len() + e4.len() + l5.len() + e5.len(), l6, e6 + (lend));
    lemma_split_subrange(s, i + l0.len() + e0.len() + l1.len() + e1.len() + l2.len() + e2.len() + l3.len() + e3.len() + l4.len() + e4.len() + l5.len() + e5.len() + l6.len(), e6, lend);
    lemma_parse_enc_str(s, i + l0.len() + e0.len() + l1.len() + e1.len() + l2.len() + e2.len() + l3.len() + e3.len() + l4.len() + e4.len() + l5.len() + e5.len() + l6.len(), v.last_updated_at);
}

/// Append the encoding of one folder record to `out`.
#[verifier::rlimit(80)]
pub fn write_folder(out: &mut String, v: &FolderMeta)
    ensures
        final(out)@ == old(out)@ + spec_enc_folder(v@),
{
    out.append("{\"id\":");
    write_str(out, v.id.as_str());
    out.append(",\"name\":");
    write_str(out, v.name.as_str());
    out.append(",\"workspace_id\":");
    write_str(out, v.workspace_id.as_str());
    out.append(",\"chat_ids\":");
    write_str_list(out, &v.chat_ids);
    out.append(",\"tags\":");
    write_str_list(out, &v.tags);
    out.append(",\"created_at\":");
    write_str(out, v.created_at.as_str());
    out.append(",\"last_updated_at\":");
    write_str(out, v.last_updated_at.as_str());
    out.append("}");
    proof {
        assert(final(out)@ =~= old(out)@ + spec_enc_folder(v@));
    }
}

/// Parse one folder record at `start`.
#[verifier::rlimit(80)]
pub fn parse_folder(s: &str, start: usize) -> (r: Option<(FolderMeta, usize)>)
    ensures
        match r {
            Some(p) => spec_parse_folder(s@, start as int) == Some((p.0@, p.1 as int))
                && start < p.1 <= s@.len(),
            None => spec_parse_folder(s@, start as int) is None,
        },
{
    let j0 = match expect_lit(s, start, "{\"id\":") {
        Some(j) => j,
        None => { return None; },
    };
    let (f_id, k0) = match parse_str(s, j0) {
        Some(p) => p,
        None => { return None; },
    };
    let j1 = match expect_lit(s, k0, ",\"name\":") {
        Some(j) => j,
        None => { return None; },
    };
    let (f_name, k1) = match parse_str(s, j1) {
        Some(p) => p,
        None => { return None; },
    };
    let j2 = match expect_lit(s, k1, ",\"workspace_id\":") {
        Some(j) => j,
        None => { return None; },
    };
    let (f_workspace_id, k2) = match parse_str(s, j2) {
        Some(p) => p,
        None => { return None; },
    };
    let j3 = match expect_lit(s, k2, ",\"chat_ids\":") {
        Some(j) => j,
        None => { return None; },
    };
    let (f_chat_ids, k3) = match parse_str_list(s, j3) {
        Some(p) => p,
        None => { return None; },
    };
    let j4 = match expect_lit(s, k3, ",\"tags\":") {
        Some(j) => j,
        None => { return None; },
    };
    let (f_tags, k4) = match parse_str_list(s, j4) {
        Some(p) => p,
        None => { return None; },
    };
    let j5 = match expect_lit(s, k4, ",\"created_at\":") {
        Some(j) => j,
        None => { return None; },
    };
    let (f_created_at, k5) = match parse_str(s, j5) {
        Some(p) => p,
        None => { return None; },
    };
    let j6 = match expect_lit(s, k5, ",\"last_updated_at\":") {
        Some(j) => j,
        None => { return None; },
    };
    let (f_last_updated_at, k6) = match parse_str(s, j6) {
        Some(p) => p,
        None => { return None; },
    };
    let jend = match expect_lit(s, k6, "}") {
        Some(j) => j,
        None => { return None; },
    };
    let meta = FolderMeta { id: f_id, name: f_name, workspace_id: f_workspace_id, chat_ids: f_chat_ids, tags: f_tags, created_at: f_created_at, last_updated_at: f_last_updated_at };
    proof {
        assert(spec_parse_folder(s@, start as int) == Some((meta@, jend as int)));
    }
    Some((meta, jend))
}

/// The encoded form of one chat record.
pub open spec fn spec_enc_chat(v: ChatMetaView) -> Seq<char> {
    "{\"id\":"@ + spec_enc_str(v.id) + ",\"chat_title\":"@ + spec_enc_str(v.chat_title) + ",\"file_location\":"@ + spec_enc_str(v.file_location) + ",\"model_used\":"@ + spec_enc_str(v.model_used) + ",\"workspace_id\":"@ + spec_enc_str(v.workspace_id) + ",\"folder_id\":"@ + spec_enc_opt_str(v.folder_id) + ",\"created_at\":"@ + spec_enc_str(v.created_at) + ",\"last_updated_at\":"@ + spec_enc_str(v.last_updated_at) + "}"@
}

/// Parse one chat record at `i`.
pub open spec fn spec_parse_chat(s: Seq<char>, i: int) -> Option<(ChatMetaView, int)> {
    match spec_parse_lit(s, i, "{\"id\":"@) {
        Some(j0) => match spec_parse_str(s, j0) {
            Some(p0) => {
        match spec_parse_lit(s, p0.1, ",\"chat_title\":"@) {
            Some(j1) => match spec_parse_str(s, j1) {
                Some(p1) => {
            match spec_parse_lit(s, p1.1, ",\"file_location\":"@) {
                Some(j2) => match spec_parse_str(s, j2) {
                    Some(p2) => {
                match spec_parse_lit(s, p2.1, ",\"model_used\":"@) {
                    Some(j3) => match spec_parse_str(s, j3) {
                        Some(p3) => {
                    match spec_parse_lit(s, p3.1, ",\"workspace_id\":"@) {
                        Some(j4) => match spec_parse_str(s, j4) {
                            Some(p4) => {
                        match spec_parse_lit(s, p4.1, ",\"folder_id\":"@) {
                            Some(j5) => match spec_parse_opt_str(s, j5) {
                                Some(p5) => {
                            match spec_parse_lit(s, p5.1, ",\"created_at\":"@) {
                                Some(j6) => match spec_parse_str(s, j6) {
                                    Some(p6) => {
                                match spec_parse_lit(s, p6.1, ",\"last_updated_at\":"@) {
                                    Some(j7) => match spec_parse_str(s, j7) {
                                        Some(p7) => {
                                    match spec_parse_lit(s, p7.1, "}"@) {
                                        Some(jend) => Some((ChatMetaView { id: p0.0, chat_title: p1.0, file_location: p2.0, model_used: p3.0, workspace_id: p4.0, folder_id: p5.0, created_at: p6.0, last_updated_at: p7.0 }, jend)),
                                        None => None,
                                    }
                                        },
                                        None => None,
                                    },
                                    None => None,
                                }
                                    },
                                    None => None,
                                },
                                None => None,
                            }
                                },
                                None => None,
                            },
                            None => None,
                        }
                            },
                            None => None,
                        },
                        None => None,
                    }
                        },
                        None => None,
                    },
                    None => None,
                }
                    },
                    None => None,
                },
                None => None,
            }
                },
                None => None,
            },
            None => None,
        }
            },
            None => None,
        },
        None => None,
    }
}

/// Round trip of one chat record.
#[verifier::rlimit(80)]
pub proof fn lemma_parse_enc_chat(s: Seq<char>, i: int, v: ChatMetaView)
    requires
        0 <= i,
        i + spec_enc_chat(v).len() <= s.len(),
        s.subrange(i, i + spec_enc_chat(v).len()) == spec_enc_chat(v),
    ensures
        spec_parse_chat(s, i) == Some((v, i + spec_enc_chat(v).len())),
{
    let l0 = "{\"id\":"@;
    let e0 = spec_enc_str(v.id);
    let l1 = ",\"chat_title\":"@;
    let e1 = spec_enc_str(v.chat_title);
    let l2 = ",\"file_location\":"@;
    let e2 = spec_enc_str(v.file_location);
    let l3 = ",\"model_used\":"@;
    let e3 = spec_enc_str(v.model_used);
    let l4 = ",\"workspace_id\":"@;
    let e4 = spec_enc_str(v.workspace_id);
    let l5 = ",\"folder_id\":"@;
    let e5 = spec_enc_opt_str(v.folder_id);
    let l6 = ",\"created_at\":"@;
    let e6 = spec_enc_str(v.created_at);
    let l7 = ",\"last_updated_at\":"@;
    let e7 = spec_enc_str(v.last_updated_at);
    let lend = "}"@;
    assert(spec_enc_chat(v) == l0 + e0 + l1 + e1 + l2 + e2 + l3 + e3 + l4 + e4 + l5 + e5 + l6 + e6 + l7 + e7 + lend);
    assert(s.subrange(i, i + spec_enc_chat(v).len()) =~= l0 + (e0 + (l1 + (e1 + (l2 + (e2 + (l3 + (e3 + (l4 + (e4 + (l5 + (e5 + (l6 + (e6 + (l7 + (e7 + (lend)))))))))))))))));
    lemma_split_subrange(s, i, l0, e0 + (l1 + (e1 + (l2 + (e2 + (l3 + (e3 + (l4 + (e4 + (l5 + (e5 + (l6 + (e6 + (l7 + (e7 + (lend))))))))))))))));
    lemma_split_subrange(s, i + l0.len(), e0, l1 + (e1 + (l2 + (e2 + (l3 + (e3 + (l4 + (e4 + (l5 + (e5 + (l6 + (e6 + (l7 + (e7 + (lend)))))))))))))));
    lemma_parse_enc_str(s, i + l0.len(), v.id);
    lemma_split_subrange(s, i + l0.len() + e0.len(), l1, e1 + (l2 + (e2 + (l3 + (e3 + (l4 + (e4 + (l5 + (e5 + (l6 + (e6 + (l7 + (e7 + (lend))))))))))))));
    lemma_split_subrange(s, i + l0.len() + e0.len() + l1.len(), e1, l2 + (e2 + (l3 + (e3 + (l4 + (e4 + (l5 + (e5 + (l6 + (e6 + (l7 + (e7 + (lend)))))))))))));
    lemma_parse_enc_str(s, i + l0.len() + e0.len() + l1.len(), v.chat_title);
    lemma_split_subrange(s, i + l0.len() + e0.len() + l1.len() + e1.len(), l2, e2 + (l3 + (e3 + (l4 + (e4 + (l5 + (e5 + (l6 + (e6 + (l7 + (e7 + (lend))))))))))));
    lemma_split_subrange(s, i + l0.len() + e0.len() + l1.len() + e1.len() + l2.len(), e2, l3 + (e3 + (l4 + (e4 + (l5 + (e5 + (l6 + (e6 + (l7 + (e7 + (lend)))))))))));
    lemma_parse_enc_str(s, i + l0.len() + e0.len() + l1.len() + e1.len() + l2.len(), v.file_location);
    lemma_split_subrange(s, i + l0.len() + e0.len() + l1.len() + e1.len() + l2.len() + e2.len(), l3, e3 + (l4 + (e4 + (l5 + (e5 + (l6 + (e6 + (l7 + (e7 + (lend))))))))));
    lemma_split_subrange(s, i + l0.len() + e0.len() + l1.len() + e1.len() + l2.len() + e2.len() + l3.len(), e3, l4 + (e4 + (l5 + (e5 + (l6 + (e6 + (l7 + (e7 + (lend)))))))));
    lemma_parse_enc_str(s, i + l0.len() + e0.len() + l1.len() + e1.len() + l2.len() + e2.len() + l3.len(), v.model_used);
    lemma_split_subrange(s, i + l0.len() + e0.len() + l1.len() + e1.len() + l2.len() + e2.len() + l3.len() + e3.len(), l4, e4 + (l5 + (e5 + (l6 + (e6 + (l7 + (e7 + (lend))))))));
    lemma_split_subrange(s, i + l0.len() + e0.len() + l1.len() + e1.len() + l2.len() + e2.len() + l3.len() + e3.len() + l4.len(), e4, l5 + (e5 + (l6 + (e6 + (l7 + (e7 + (lend)))))));
    lemma_parse_enc_str(s, i + l0.len() + e0.len() + l1.len() + e1.len() + l2.len() + e2.len() + l3.len() + e3.len() + l4.len(), v.workspace_id);
    lemma_split_subrange(s, i + l0.len() + e0.len() + l1.len() + e1.len() + l2.len() + e2.len() + l3.len() + e3.len() + l4.len() + e4.len(), l5, e5 + (l6 + (e6 + (l7 + (e7 + (lend))))));
    lemma_split_subrange(s, i + l0.len() + e0.len() + l1.len() + e1.len() + l2.len() + e2.len() + l3.len() + e3.len() + l4.len() + e4.len() + l5.len(), e5, l6 + (e6 + (l7 + (e7 + (lend)))));
    lemma_parse_enc_opt_str(s, i + l0.len() + e0.len() + l1.len() + e1.len() + l2.len() + e2.len() + l3.len() + e3.len() + l4.len() + e4.len() + l5.len(), v.folder_id);
    lemma_split_subrange(s, i + l0.len() + e0.len() + l1.len() + e1.len() + l2.len() + e2.len() + l3.len() + e3.len() + l4.len() + e4.len() + l5.len() + e5.len(), l6, e6 + (l7 + (e7 + (lend))));
    lemma_split_subrange(s, i + l0.len() + e0.len() + l1.len() + e1.len() + l2.len() + e2.len() + l3.len() + e3.len() + l4.len() + e4.len() + l5.len() + e5.len() + l6.len(), e6, l7 + (e7 + (lend)));
    lemma_parse_enc_str(s, i + l0.len() + e0.len() + l1.len() + e1.len() + l2.len() + e2.len() + l3.len() + e3.len() + l4.len() + e4.len() + l5.len() + e5.len() + l6.len(), v.created_at);
    lemma_split_subrange(s, i + l0.len() + e0.len() + l1.len() + e1.len() + l2.len() + e2.len() + l3.len() + e3.len() + l4.len() + e4.len() + l5.len() + e5.len() + l6.len() + e6.len(), l7, e7 + (lend));
    lemma_split_subrange(s, i + l0.len() + e0.len() + l1.len() + e1.len() + l2.len() + e2.len() + l3.len() + e3.len() + l4.len() + e4.len() + l5.len() + e5.len() + l6.len() + e6.len() + l7.len(), e7, lend);
    lemma_parse_enc_str(s, i + l0.len() + e0.len() + l1.len() + e1.len() + l2.len() + e2.len() + l3.len() + e3.len() + l4.len() + e4.len() + l5.len() + e5.len() + l6.len() + e6.len() + l7.len(), v.last_updated_at);
}

/// Append the encoding of one chat record to `out`.
#[verifier::rlimit(80)]
pub fn write_chat(out: &mut String, v: &ChatMeta)
    ensures
        final(out)@ == old(out)@ + spec_enc_chat(v@),
{
    out.append("{\"id\":");
    write_str(out, v.id.as_str());
    out.append(",\"chat_title\":");
    write_str(out, v.chat_title.as_str());
    out.append(",\"file_location\":");
    write_str(out, v.file_location.as_str());
    out.append(",\"model_used\":");
    write_str(out, v.model_used.as_str());
    out.append(",\"workspace_id\":");
    write_str(out, v.workspace_id.as_str());
    out.append(",\"folder_id\":");
    write_opt_str(out, &v.folder_id);
    out.append(",\"created_at\":");
    write_str(out, v.created_at.as_str());
    out.append(",\"last_updated_at\":");
    write_str(out, v.last_updated_at.as_str());
    out.append("}");
    proof {
        assert(final(out)@ =~= old(out)@ + spec_enc_chat(v@));
    }
}

/// Parse one chat record at `start`.
#[verifier::rlimit(80)]
pub fn parse_chat(s: &str, start: usize) -> (r: Option<(ChatMeta, usize)>)
    ensures
        match r {
            Some(p) => spec_parse_chat(s@, start as int) == Some((p.0@, p.1 as int))
                && start < p.1 <= s@.len(),
            None => spec_parse_chat(s@, start as int) is None,
        },
{
    let j0 = match expect_lit(s, start, "{\"id\":") {
        Some(j) => j,
        None => { return None; },
    };
    let (f_id, k0) = match parse_str(s, j0) {
        Some(p) => p,
        None => { return None; },
    };
    let j1 = match expect_lit(s, k0, ",\"chat_title\":") {
        Some(j) => j,
        None => { return None; },
    };
    let (f_chat_title, k1) = match parse_str(s, j1) {
        Some(p) => p,
        None => { return None; },
    };
    let j2 = match expect_lit(s, k1, ",\"file_location\":") {
        Some(j) => j,
        None => { return None; },
    };
    let (f_file_location, k2) = match parse_str(s, j2) {
        Some(p) => p,
        None => { return None; },
    };
    let j3 = match expect_lit(s, k2, ",\"model_used\":") {
        Some(j) => j,
        None => { return None; },
    };
    let (f_model_used, k3) = match parse_str(s, j3) {
        Some(p) => p,
        None => { return None; },
    };
    let j4 = match expect_lit(s, k3, ",\"workspace_id\":") {
        Some(j) => j,
        None => { return None; },
    };
    let (f_workspace_id, k4) = match parse_str(s, j4) {
        Some(p) => p,
        None => { return None; },
    };
    let j5 = match expect_lit(s, k4, ",\"folder_id\":") {
        Some(j) => j,
        None => { return None; },
    };
    let (f_folder_id, k5) = match parse_opt_str(s, j5) {
        Some(p) => p,
        None => { return None; },
    };
    let j6 = match expect_lit(s, k5, ",\"created_at\":") {
        Some(j) => j,
        None => { return None; },
    };
    let (f_created_at, k6) = match parse_str(s, j6) {
        Some(p) => p,
        None => { return None; },
    };
    let j7 = match expect_lit(s, k6, ",\"last_updated_at\":") {
        Some(j) => j,
        None => { return None; },
    };
    let (f_last_updated_at, k7) = match parse_str(s, j7) {
        Some(p) => p,
        None => { return None; },
    };
    let jend = match expect_lit(s, k7, "}") {
        Some(j) => j,
        None => { return None; },
    };
    let meta = ChatMeta { id: f_id, chat_title: f_chat_title, file_location: f_file_location, model_used: f_model_used, workspace_id: f_workspace_id, folder_id: f_folder_id, created_at: f_created_at, last_updated_at: f_last_updated_at };
    proof {
        assert(spec_parse_chat(s@, start as int) == Some((meta@, jend as int)));
    }
    Some((meta, jend))
}


/// The second and later items of a message list, each preceded by a comma.
pub open spec fn spec_enc_messages_sep_items(vs: Seq<ChatMessageView>) -> Seq<char>
    decreases vs.len(),
{
    if vs.len() == 0 {
        Seq::empty()
    } else {
        seq![','] + spec_enc_message(vs.first()) + spec_enc_messages_sep_items(vs.drop_first())
    }
}

/// The encoded items of a message list, comma-separated, without brackets.
pub open spec fn spec_enc_messages_items(vs: Seq<ChatMessageView>) -> Seq<char> {
    if vs.len() == 0 {
        Seq::empty()
    } else {
        spec_enc_message(vs.first()) + spec_enc_messages_sep_items(vs.drop_first())
    }
}

/// A whole encoded message list.
pub open spec fn spec_enc_messages_list(vs: Seq<ChatMessageView>) -> Seq<char> {
    seq!['['] + spec_enc_messages_items(vs) + seq![']']
}

/// Parse one or more comma-separated message records followed by the
/// closing bracket, which is consumed.
pub open spec fn spec_parse_messages_items(s: Seq<char>, i: int) -> Option<(Seq<ChatMessageView>, int)>
    decreases s.len() - i,
{
    match spec_parse_message(s, i) {
        Some(p) => {
            if i < p.1 && p.1 < s.len() {
                if s[p.1] == ',' {
                    match spec_parse_messages_items(s, p.1 + 1) {
                        Some(q) => Some((seq![p.0] + q.0, q.1)),
                        None => None,
                    }
                } else if s[p.1] == ']' {
                    Some((seq![p.0], p.1 + 1))
                } else {
                    None
                }
            } else {
                None
            }
        },
        None => None,
    }
}

/// Parse a whole message list at `i`.
pub open spec fn spec_parse_messages_list(s: Seq<char>, i: int) -> Option<(Seq<ChatMessageView>, int)> {
    if 0 <= i < s.len() && s[i] == '[' {
        if i + 1 < s.len() && s[i + 1] == ']' {
            Some((Seq::empty(), i + 2))
        } else {
            spec_parse_messages_items(s, i + 1)
        }
    } else {
        None
    }
}

/// Round trip of the items of a non-empty message list.
pub proof fn lemma_parse_enc_messages_items(s: Seq<char>, i: int, vs: Seq<ChatMessageView>)
    requires
        vs.len() >= 1,
        0 <= i,
        i + spec_enc_messages_items(vs).len() + 1 <= s.len(),
        s.subrange(i, i + spec_enc_messages_items(vs).len() + 1) == spec_enc_messages_items(vs)
            + seq![']'],
    ensures
        spec_parse_messages_items(s, i) == Some((vs, i + spec_enc_messages_items(vs).len() + 1)),
    decreases vs.len(),
{
    let items = spec_enc_messages_items(vs);
    let j = i + items.len() + 1;
    let e = spec_enc_message(vs.first());
    let rest = vs.drop_first();
    if vs.len() == 1 {
        assert(spec_enc_messages_sep_items(rest) =~= Seq::<char>::empty());
        assert(items =~= e);
        assert(items + seq![']'] =~= e + seq![']']);
        lemma_split_subrange(s, i, e, seq![']']);
        lemma_parse_enc_message(s, i, vs.first());
        assert(s.subrange(i + e.len(), i + e.len() + 1)[0] == ']');
        assert(s[i + e.len()] == ']');
        assert(spec_parse_messages_items(s, i) == Some((seq![vs.first()], j)));
        assert(seq![vs.first()] =~= vs);
    } else {
        let sep = spec_enc_messages_sep_items(rest);
        assert(items == e + sep);
        assert(sep == seq![','] + spec_enc_message(rest.first()) + spec_enc_messages_sep_items(
            rest.drop_first(),
        ));
        assert(items + seq![']'] =~= e + (seq![','] + (spec_enc_messages_items(rest) + seq![']'])))
            by {
            assert(spec_enc_messages_items(rest) == spec_enc_message(rest.first())
                + spec_enc_messages_sep_items(rest.drop_first()));
        }
        lemma_split_subrange(s, i, e, seq![','] + (spec_enc_messages_items(rest) + seq![']']));
        lemma_parse_enc_message(s, i, vs.first());
        lemma_split_subrange(s, i + e.len(), seq![','], spec_enc_messages_items(rest) + seq![']']);
        assert(s.subrange(i + e.len(), i + e.len() + 1)[0] == ',');
        assert(s[i + e.len()] == ',');
        lemma_parse_enc_messages_items(s, i + e.len() + 1, rest);
        assert(spec_parse_messages_items(s, i) == Some((seq![vs.first()] + rest, j)));
        assert(seq![vs.first()] + rest =~= vs);
    }
}

/// Round trip of a whole message list.
pub proof fn lemma_parse_enc_messages_list(s: Seq<char>, i: int, vs: Seq<ChatMessageView>)
    requires
        0 <= i,
        i + spec_enc_messages_list(vs).len() <= s.len(),
        s.subrange(i, i + spec_enc_messages_list(vs).len()) == spec_enc_messages_list(vs),
    ensures
        spec_parse_messages_list(s, i) == Some((vs, i + spec_enc_messages_list(vs).len())),
{
    let enc = spec_enc_messages_list(vs);
    let items = spec_enc_messages_items(vs);
    assert(s[i] == enc[0]);
    assert(s[i] == '[');
    assert(enc =~= seq!['['] + (items + seq![']']));
    lemma_split_subrange(s, i, seq!['['], items + seq![']']);
    if vs.len() == 0 {
        assert(s.subrange(i + 1, i + enc.len())[0] == ']');
        assert(s[i + 1] == ']');
    } else {
        reveal_strlit("{\"role\":");
        assert(s.subrange(i + 1, i + enc.len())[0] == items[0]);
        assert(items[0] == spec_enc_message(vs.first())[0]);
        assert(s[i + 1] == '{');
        assert(s[i + 1] != ']');
        lemma_parse_enc_messages_items(s, i + 1, vs);
    }
}

/// Append the encoding of a message list to `out`.
pub fn write_messages_list(out: &mut String, vs: &Vec<ChatMessage>)
    ensures
        final(out)@ == old(out)@ + spec_enc_messages_list(vs@.map_values(|x: ChatMessage| x@)),
{
    let ghost views = vs@.map_values(|x: ChatMessage| x@);
    push_char(out, '[');
    if vs.len() == 0 {
        push_char(out, ']');
        proof {
            assert(final(out)@ =~= old(out)@ + spec_enc_messages_list(views));
        }
        return ;
    }
    write_message(out, &vs[0]);
    let mut i: usize = 1;
    proof {
        assert(views.subrange(1, views.len() as int) =~= views.drop_first());
        assert(out@ =~= old(out)@ + seq!['['] + spec_enc_message(views.first()));
    }
    while i < vs.len()
        invariant
            1 <= i <= vs.len(),
            views == vs@.map_values(|x: ChatMessage| x@),
            views.len() == vs@.len(),
            out@ + spec_enc_messages_sep_items(views.subrange(i as int, views.len() as int))
                == old(out)@ + seq!['['] + spec_enc_messages_items(views),
        decreases vs.len() - i,
    {
        proof {
            let tail = views.subrange(i as int, views.len() as int);
            assert(tail.first() == views[i as int]);
            assert(tail.drop_first() =~= views.subrange(i + 1, views.len() as int));
        }
        push_char(out, ',');
        write_message(out, &vs[i]);
        i = i + 1;
    }
    push_char(out, ']');
    proof {
        assert(views.subrange(views.len() as int, views.len() as int) =~= Seq::<ChatMessageView>::empty());
        assert(final(out)@ =~= old(out)@ + spec_enc_messages_list(views));
    }
}

/// Parse a message list at `start`.
pub fn parse_messages_list(s: &str, start: usize) -> (r: Option<(Vec<ChatMessage>, usize)>)
    ensures
        match r {
            Some(p) => spec_parse_messages_list(s@, start as int) == Some(
                (p.0@.map_values(|x: ChatMessage| x@), p.1 as int),
            ) && start < p.1 <= s@.len(),
            None => spec_parse_messages_list(s@, start as int) is None,
        },
{
    let n = s.unicode_len();
    if start >= n || s.get_char(start) != '[' {
        return None;
    }
    if start + 1 < n && s.get_char(start + 1) == ']' {
        let out: Vec<ChatMessage> = Vec::new();
        proof {
            assert(out@.map_values(|x: ChatMessage| x@) =~= Seq::<ChatMessageView>::empty());
        }
        return Some((out, start + 2));
    }
    let mut acc: Vec<ChatMessage> = Vec::new();
    let mut i: usize = start + 1;
    proof {
        assert(acc@.map_values(|x: ChatMessage| x@) =~= Seq::<ChatMessageView>::empty());
    }
    loop
        invariant
            start + 1 <= i <= n,
            n == s@.len(),
            s@[start as int] == '[',
            !(start + 1 < s@.len() && s@[start as int + 1] == ']'),
            (match spec_parse_messages_items(s@, i as int) {
                Some(q) => spec_parse_messages_items(s@, start + 1) == Some(
                    (acc@.map_values(|x: ChatMessage| x@) + q.0, q.1),
                ),
                None => spec_parse_messages_items(s@, start + 1) is None,
            }),
        decreases n - i,
    {
        match parse_message(s, i) {
            None => {
                return None;
            },
            Some((v, j)) => {
                let ghost accv = acc@.map_values(|x: ChatMessage| x@);
                let ghost vv = v@;
                acc.push(v);
                proof {
                    assert(acc@.map_values(|x: ChatMessage| x@) =~= accv.push(vv));
                }
                if j < n && s.get_char(j) == ',' {
                    proof {
                        match spec_parse_messages_items(s@, j + 1) {
                            Some(q) => {
                                assert(spec_parse_messages_items(s@, i as int) == Some(
                                    (seq![vv] + q.0, q.1),
                                ));
                                assert(accv.push(vv) + q.0 =~= accv + (seq![vv] + q.0));
                            },
                            None => {},
                        }
                    }
                    i = j + 1;
                } else if j < n && s.get_char(j) == ']' {
                    proof {
                        assert(spec_parse_messages_items(s@, i as int) == Some((seq![vv], j + 1)));
                        assert(accv.push(vv) =~= accv + seq![vv]);
                    }
                    return Some((acc, j + 1));
                } else {
                    return None;
                }
            },
        }
    }
}

/// The second and later items of a workspace list, each preceded by a comma.
pub open spec fn spec_enc_workspaces_sep_items(vs: Seq<WorkspaceMetaView>) -> Seq<char>
    decreases vs.len(),
{
    if vs.len() == 0 {
        Seq::empty()
    } else {
        seq![','] + spec_enc_workspace(vs.first()) + spec_enc_workspaces_sep_items(vs.drop_first())
    }
}

/// The encoded items of a workspace list, comma-separated, without brackets.
pub open spec fn spec_enc_workspaces_items(vs: Seq<WorkspaceMetaView>) -> Seq<char> {
    if vs.len() == 0 {
        Seq::empty()
    } else {
        spec_enc_workspace(vs.first()) + spec_enc_workspaces_sep_items(vs.drop_first())
    }
}

/// A whole encoded workspace list.
pub open spec fn spec_enc_workspaces_list(vs: Seq<WorkspaceMetaView>) -> Seq<char> {
    seq!['['] + spec_enc_workspaces_items(vs) + seq![']']
}

/// Parse one or more comma-separated workspace records followed by the
/// closing bracket, which is consumed.
pub open spec fn spec_parse_workspaces_items(s: Seq<char>, i: int) -> Option<(Seq<WorkspaceMetaView>, int)>
    decreases s.len() - i,
{
    match spec_parse_workspace(s, i) {
        Some(p) => {
            if i < p.1 && p.1 < s.len() {
                if s[p.1] == ',' {
                    match spec_parse_workspaces_items(s, p.1 + 1) {
                        Some(q) => Some((seq![p.0] + q.0, q.1)),
                        None => None,
                    }
                } else if s[p.1] == ']' {
                    Some((seq![p.0], p.1 + 1))
                } else {
                    None
                }
            } else {
                None
            }
        },
        None => None,
    }
}

/// Parse a whole workspace list at `i`.
pub open spec fn spec_parse_workspaces_list(s: Seq<char>, i: int) -> Option<(Seq<WorkspaceMetaView>, int)> {
    if 0 <= i < s.len() && s[i] == '[' {
        if i + 1 < s.len() && s[i + 1] == ']' {
            Some((Seq::empty(), i + 2))
        } else {
            spec_parse_workspaces_items(s, i + 1)
        }
    } else {
        None
    }
}

/// Round trip of the items of a non-empty workspace list.
pub proof fn lemma_parse_enc_workspaces_items(s: Seq<char>, i: int, vs: Seq<WorkspaceMetaView>)
    requires
        vs.len() >= 1,
        0 <= i,
        i + spec_enc_workspaces_items(vs).len() + 1 <= s.len(),
        s.subrange(i, i + spec_enc_workspaces_items(vs).len() + 1) == spec_enc_workspaces_items(vs)
            + seq![']'],
    ensures
        spec_parse_workspaces_items(s, i) == Some((vs, i + spec_enc_workspaces_items(vs).len() + 1)),
    decreases vs.len(),
{
    let items = spec_enc_workspaces_items(vs);
    let j = i + items.len() + 1;
    let e = spec_enc_workspace(vs.first());
    let rest = vs.drop_first();
    if vs.len() == 1 {
        assert(spec_enc_workspaces_sep_items(rest) =~= Seq::<char>::empty());
        assert(items =~= e);
        assert(items + seq![']'] =~= e + seq![']']);
        lemma_split_subrange(s, i, e, seq![']']);
        lemma_parse_enc_workspace(s, i, vs.first());
        assert(s.subrange(i + e.len(), i + e.len() + 1)[0] == ']');
        assert(s[i + e.len()] == ']');
        assert(spec_parse_workspaces_items(s, i) == Some((seq![vs.first()], j)));
        assert(seq![vs.first()] =~= vs);
    } else {
        let sep = spec_enc_workspaces_sep_items(rest);
        assert(items == e + sep);
        assert(sep == seq![','] + spec_enc_workspace(rest.first()) + spec_enc_workspaces_sep_items(
            rest.drop_first(),
        ));
        assert(items + seq![']'] =~= e + (seq![','] + (spec_enc_workspaces_items(rest) + seq![']'])))
            by {
            assert(spec_enc_workspaces_items(rest) == spec_enc_workspace(rest.first())
                + spec_enc_workspaces_sep_items(rest.drop_first()));
        }
        lemma_split_subrange(s, i, e, seq![','] + (spec_enc_workspaces_items(rest) + seq![']']));
        lemma_parse_enc_workspace(s, i, vs.first());
        lemma_split_subrange(s, i + e.len(), seq![','], spec_enc_workspaces_items(rest) + seq![']']);
        assert(s.subrange(i + e.len(), i + e.len() + 1)[0] == ',');
        assert(s[i + e.len()] == ',');
        lemma_parse_enc_workspaces_items(s, i + e.len() + 1, rest);
        assert(spec_parse_workspaces_items(s, i) == Some((seq![vs.first()] + rest, j)));
        assert(seq![vs.first()] + rest =~= vs);
    }
}

/// Round trip of a whole workspace list.
pub proof fn lemma_parse_enc_workspaces_list(s: Seq<char>, i: int, vs: Seq<WorkspaceMetaView>)
    requires
        0 <= i,
        i + spec_enc_workspaces_list(vs).len() <= s.len(),
        s.subrange(i, i + spec_enc_workspaces_list(vs).len()) == spec_enc_workspaces_list(vs),
    ensures
        spec_parse_workspaces_list(s, i) == Some((vs, i + spec_enc_workspaces_list(vs).len())),
{
    let enc = spec_enc_workspaces_list(vs);
    let items = spec_enc_workspaces_items(vs);
    assert(s[i] == enc[0]);
    assert(s[i] == '[');
    assert(enc =~= seq!['['] + (items + seq![']']));
    lemma_split_subrange(s, i, seq!['['], items + seq![']']);
    if vs.len() == 0 {
        assert(s.subrange(i + 1, i + enc.len())[0] == ']');
        assert(s[i + 1] == ']');
    } else {
        reveal_strlit("{\"id\":");
        assert(s.subrange(i + 1, i + enc.len())[0] == items[0]);
        assert(items[0] == spec_enc_workspace(vs.first())[0]);
        assert(s[i + 1] == '{');
        assert(s[i + 1] != ']');
        lemma_parse_enc_workspaces_items(s, i + 1, vs);
    }
}

/// Append the encoding of a workspace list to `out`.
pub fn write_workspaces_list(out: &mut String, vs: &Vec<WorkspaceMeta>)
    ensures
        final(out)@ == old(out)@ + spec_enc_workspaces_list(vs@.map_values(|x: WorkspaceMeta| x@)),
{
    let ghost views = vs@.map_values(|x: WorkspaceMeta| x@);
    push_char(out, '[');
    if vs.len() == 0 {
        push_char(out, ']');
        proof {
            assert(final(out)@ =~= old(out)@ + spec_enc_workspaces_list(views));
        }
        return ;
    }
    write_workspace(out, &vs[0]);
    let mut i: usize = 1;
    proof {
        assert(views.subrange(1, views.len() as int) =~= views.drop_first());
        assert(out@ =~= old(out)@ + seq!['['] + spec_enc_workspace(views.first()));
    }
    while i < vs.len()
        invariant
            1 <= i <= vs.len(),
            views == vs@.map_values(|x: WorkspaceMeta| x@),
            views.len() == vs@.len(),
            out@ + spec_enc_workspaces_sep_items(views.subrange(i as int, views.len() as int))
                == old(out)@ + seq!['['] + spec_enc_workspaces_items(views),
        decreases vs.len() - i,
    {
        proof {
            let tail = views.subrange(i as int, views.len() as int);
            assert(tail.first() == views[i as int]);
            assert(tail.drop_first() =~= views.subrange(i + 1, views.len() as int));
        }
        push_char(out, ',');
        write_workspace(out, &vs[i]);
        i = i + 1;
    }
    push_char(out, ']');
    proof {
        assert(views.subrange(views.len() as int, views.len() as int) =~= Seq::<WorkspaceMetaView>::empty());
        assert(final(out)@ =~= old(out)@ + spec_enc_workspaces_list(views));
    }
}

/// Parse a workspace list at `start`.
pub fn parse_workspaces_list(s: &str, start: usize) -> (r: Option<(Vec<WorkspaceMeta>, usize)>)
    ensures
        match r {
            Some(p) => spec_parse_workspaces_list(s@, start as int) == Some(
                (p.0@.map_values(|x: WorkspaceMeta| x@), p.1 as int),
            ) && start < p.1 <= s@.len(),
            None => spec_parse_workspaces_list(s@, start as int) is None,
        },
{
    let n = s.unicode_len();
    if start >= n || s.get_char(start) != '[' {
        return None;
    }
    if start + 1 < n && s.get_char(start + 1) == ']' {
        let out: Vec<WorkspaceMeta> = Vec::new();
        proof {
            assert(out@.map_values(|x: WorkspaceMeta| x@) =~= Seq::<WorkspaceMetaView>::empty());
        }
        return Some((out, start + 2));
    }
    let mut acc: Vec<WorkspaceMeta> = Vec::new();
    let mut i: usize = start + 1;
    proof {
        assert(acc@.map_values(|x: WorkspaceMeta| x@) =~= Seq::<WorkspaceMetaView>::empty());
    }
    loop
        invariant
            start + 1 <= i <= n,
            n == s@.len(),
            s@[start as int] == '[',
            !(start + 1 < s@.len() && s@[start as int + 1] == ']'),
            (match spec_parse_workspaces_items(s@, i as int) {
                Some(q) => spec_parse_workspaces_items(s@, start + 1) == Some(
                    (acc@.map_values(|x: WorkspaceMeta| x@) + q.0, q.1),
                ),
                None => spec_parse_workspaces_items(s@, start + 1) is None,
            }),
        decreases n - i,
    {
        match parse_workspace(s, i) {
            None => {
                return None;
            },
            Some((v, j)) => {
                let ghost accv = acc@.map_values(|x: WorkspaceMeta| x@);
                let ghost vv = v@;
                acc.push(v);
                proof {
                    assert(acc@.map_values(|x: WorkspaceMeta| x@) =~= accv.push(vv));
                }
                if j < n && s.get_char(j) == ',' {
                    proof {
                        match spec_parse_workspaces_items(s@, j + 1) {
                            Some(q) => {
                                assert(spec_parse_workspaces_items(s@, i as int) == Some(
                                    (seq![vv] + q.0, q.1),
                                ));
                                assert(accv.push(vv) + q.0 =~= accv + (seq![vv] + q.0));
                            },
                            None => {},
                        }
                    }
                    i = j + 1;
                } else if j < n && s.get_char(j) == ']' {
                    proof {
                        assert(spec_parse_workspaces_items(s@, i as int) == Some((seq![vv], j + 1)));
                        assert(accv.push(vv) =~= accv + seq![vv]);
                    }
                    return Some((acc, j + 1));
                } else {
                    return None;
                }
            },
        }
    }
}

/// The second and later items of a folder list, each preceded by a comma.
pub open spec fn spec_enc_folders_sep_items(vs: Seq<FolderMetaView>) -> Seq<char>
    decreases vs.len(),
{
    if vs.len() == 0 {
        Seq::empty()
    } else {
        seq![','] + spec_enc_folder(vs.first()) + spec_enc_folders_sep_items(vs.drop_first())
    }
}

/// The encoded items of a folder list, comma-separated, without brackets.
pub open spec fn spec_enc_folders_items(vs: Seq<FolderMetaView>) -> Seq<char> {
    if vs.len() == 0 {
        Seq::empty()
    } else {
        spec_enc_folder(vs.first()) + spec_enc_folders_sep_items(vs.drop_first())
    }
}

/// A whole encoded folder list.
pub open spec fn spec_enc_folders_list(vs: Seq<FolderMetaView>) -> Seq<char> {
    seq!['['] + spec_enc_folders_items(vs) + seq![']']
}

/// Parse one or more comma-separated folder records followed by the
/// closing bracket, which is consumed.
pub open spec fn spec_parse_folders_items(s: Seq<char>, i: int) -> Option<(Seq<FolderMetaView>, int)>
    decreases s.len() - i,
{
    match spec_parse_folder(s, i) {
        Some(p) => {
            if i < p.1 && p.1 < s.len() {
                if s[p.1] == ',' {
                    match spec_parse_folders_items(s, p.1 + 1) {
                        Some(q) => Some((seq![p.0] + q.0, q.1)),
                        None => None,
                    }
                } else if s[p.1] == ']' {
                    Some((seq![p.0], p.1 + 1))
                } else {
                    None
                }
            } else {
                None
            }
        },
        None => None,
    }
}

/// Parse a whole folder list at `i`.
pub open spec fn spec_parse_folders_list(s: Seq<char>, i: int) -> Option<(Seq<FolderMetaView>, int)> {
    if 0 <= i < s.len() && s[i] == '[' {
        if i + 1 < s.len() && s[i + 1] == ']' {
            Some((Seq::empty(), i + 2))
        } else {
            spec_parse_folders_items(s, i + 1)
        }
    } else {
        None
    }
}

/// Round trip of the items of a non-empty folder list.
#[verifier::rlimit(100)]
#[verifier::spinoff_prover]
pub proof fn lemma_parse_enc_folders_items(s: Seq<char>, i: int, vs: Seq<FolderMetaView>)
    requires
        vs.len() >= 1,
        0 <= i,
        i + spec_enc_folders_items(vs).len() + 1 <= s.len(),
        s.subrange(i, i + spec_enc_folders_items(vs).len() + 1) == spec_enc_folders_items(vs)
            + seq![']'],
    ensures
        spec_parse_folders_items(s, i) == Some((vs, i + spec_enc_folders_items(vs).len() + 1)),
    decreases vs.len(),
{
    let items = spec_enc_folders_items(vs);
    let j = i + items.len() + 1;
    let e = spec_enc_folder(vs.first());
    let rest = vs.drop_first();
    if vs.len() == 1 {
        assert(spec_enc_folders_sep_items(rest) =~= Seq::<char>::empty());
        assert(items =~= e);
        assert(items + seq![']'] =~= e + seq![']']);
        lemma_split_subrange(s, i, e, seq![']']);
        lemma_parse_enc_folder(s, i, vs.first());
        assert(s.subrange(i + e.len(), i + e.len() + 1)[0] == ']');
        assert(s[i + e.len()] == ']');
        assert(spec_parse_folders_items(s, i) == Some((seq![vs.first()], j)));
        assert(seq![vs.first()] =~= vs);
    } else {
        let sep = spec_enc_folders_sep_items(rest);
        assert(items == e + sep);
        assert(sep == seq![','] + spec_enc_folder(rest.first()) + spec_enc_folders_sep_items(
            rest.drop_first(),
        ));
        assert(items + seq![']'] =~= e + (seq![','] + (spec_enc_folders_items(rest) + seq![']'])))
            by {
            assert(spec_enc_folders_items(rest) == spec_enc_folder(rest.first())
                + spec_enc_folders_sep_items(rest.drop_first()));
        }
        lemma_split_subrange(s, i, e, seq![','] + (spec_enc_folders_items(rest) + seq![']']));
        lemma_parse_enc_folder(s, i, vs.first());
        lemma_split_subrange(s, i + e.len(), seq![','], spec_enc_folders_items(rest) + seq![']']);
        assert(s.subrange(i + e.len(), i + e.len() + 1)[0] == ',');
        assert(s[i + e.len()] == ',');
        lemma_parse_enc_folders_items(s, i + e.len() + 1, rest);
        assert(spec_parse_folders_items(s, i) == Some((seq![vs.first()] + rest, j)));
        assert(seq![vs.first()] + rest =~= vs);
    }
}

/// Round trip of a whole folder list.
pub proof fn lemma_parse_enc_folders_list(s: Seq<char>, i: int, vs: Seq<FolderMetaView>)
    requires
        0 <= i,
        i + spec_enc_folders_list(vs).len() <= s.len(),
        s.subrange(i, i + spec_enc_folders_list(vs).len()) == spec_enc_folders_list(vs),
    ensures
        spec_parse_folders_list(s, i) == Some((vs, i + spec_enc_folders_list(vs).len())),
{
    let enc = spec_enc_folders_list(vs);
    let items = spec_enc_folders_items(vs);
    assert(s[i] == enc[0]);
    assert(s[i] == '[');
    assert(enc =~= seq!['['] + (items + seq![']']));
    lemma_split_subrange(s, i, seq!['['], items + seq![']']);
    if vs.len() == 0 {
        assert(s.subrange(i + 1, i + enc.len())[0] == ']');
        assert(s[i + 1] == ']');
    } else {
        reveal_strlit("{\"id\":");
        assert(s.subrange(i + 1, i + enc.len())[0] == items[0]);
        assert(items[0] == spec_enc_folder(vs.first())[0]);
        assert(s[i + 1] == '{');
        assert(s[i + 1] != ']');
        lemma_parse_enc_folders_items(s, i + 1, vs);
    }
}

/// Append the encoding of a folder list to `out`.
#[verifier::rlimit(100)]
#[verifier::spinoff_prover]
pub fn write_folders_list(out: &mut String, vs: &Vec<FolderMeta>)
    ensures
        final(out)@ == old(out)@ + spec_enc_folders_list(vs@.map_values(|x: FolderMeta| x@)),
{
    let ghost views = vs@.map_values(|x: FolderMeta| x@);
    push_char(out, '[');
    if vs.len() == 0 {
        push_char(out, ']');
        proof {
            assert(final(out)@ =~= old(out)@ + spec_enc_folders_list(views));
        }
        return ;
    }
    write_folder(out, &vs[0]);
    let mut i: usize = 1;
    proof {
        assert(views.subrange(1, views.len() as int) =~= views.drop_first());
        assert(out@ =~= old(out)@ + seq!['['] + spec_enc_folder(views.first()));
    }
    while i < vs.len()
        invariant
            1 <= i <= vs.len(),
            views == vs@.map_values(|x: FolderMeta| x@),
            views.len() == vs@.len(),
            out@ + spec_enc_folders_sep_items(views.subrange(i as int, views.len() as int))
                == old(out)@ + seq!['['] + spec_enc_folders_items(views),
        decreases vs.len() - i,
    {
        proof {
            let tail = views.subrange(i as int, views.len() as int);
            assert(tail.first() == views[i as int]);
            assert(tail.drop_first() =~= views.subrange(i + 1, views.len() as int));
        }
        push_char(out, ',');
        write_folder(out, &vs[i]);
        i = i + 1;
    }
    push_char(out, ']');
    proof {
        assert(views.subrange(views.len() as int, views.len() as int) =~= Seq::<FolderMetaView>::empty());
        assert(final(out)@ =~= old(out)@ + spec_enc_folders_list(views));
    }
}

/// Parse a folder list at `start`.
pub fn parse_folders_list(s: &str, start: usize) -> (r: Option<(Vec<FolderMeta>, usize)>)
    ensures
        match r {
            Some(p) => spec_parse_folders_list(s@, start as int) == Some(
                (p.0@.map_values(|x: FolderMeta| x@), p.1 as int),
            ) && start < p.1 <= s@.len(),
            None => spec_parse_folders_list(s@, start as int) is None,
        },
{
    let n = s.unicode_len();
    if start >= n || s.get_char(start) != '[' {
        return None;
    }
    if start + 1 < n && s.get_char(start + 1) == ']' {
        let out: Vec<FolderMeta> = Vec::new();
        proof {
            assert(out@.map_values(|x: FolderMeta| x@) =~= Seq::<FolderMetaView>::empty());
        }
        return Some((out, start + 2));
    }
    let mut acc: Vec<FolderMeta> = Vec::new();
    let mut i: usize = start + 1;
    proof {
        assert(acc@.map_values(|x: FolderMeta| x@) =~= Seq::<FolderMetaView>::empty());
    }
    loop
        invariant
            start + 1 <= i <= n,
            n == s@.len(),
            s@[start as int] == '[',
            !(start + 1 < s@.len() && s@[start as int + 1] == ']'),
            (match spec_parse_folders_items(s@, i as int) {
                Some(q) => spec_parse_folders_items(s@, start + 1) == Some(
                    (acc@.map_values(|x: FolderMeta| x@) + q.0, q.1),
                ),
                None => spec_parse_folders_items(s@, start + 1) is None,
            }),
        decreases n - i,
    {
        match parse_folder(s, i) {
            None => {
                return None;
            },
            Some((v, j)) => {
                let ghost accv = acc@.map_values(|x: FolderMeta| x@);
                let ghost vv = v@;
                acc.push(v);
                proof {
                    assert(acc@.map_values(|x: FolderMeta| x@) =~= accv.push(vv));
                }
                if j < n && s.get_char(j) == ',' {
                    proof {
                        match spec_parse_folders_items(s@, j + 1) {
                            Some(q) => {
                                assert(spec_parse_folders_items(s@, i as int) == Some(
                                    (seq![vv] + q.0, q.1),
                                ));
                                assert(accv.push(vv) + q.0 =~= accv + (seq![vv] + q.0));
                            },
                            None => {},
                        }
                    }
                    i = j + 1;
                } else if j < n && s.get_char(j) == ']' {
                    proof {
                        assert(spec_parse_folders_items(s@, i as int) == Some((seq![vv], j + 1)));
                        assert(accv.push(vv) =~= accv + seq![vv]);
                    }
                    return Some((acc, j + 1));
                } else {
                    return None;
                }
            },
        }
    }
}

/// The second and later items of a chat list, each preceded by a comma.
pub open spec fn spec_enc_chats_sep_items(vs: Seq<ChatMetaView>) -> Seq<char>
    decreases vs.len(),
{
    if vs.len() == 0 {
        Seq::empty()
    } else {
        seq![','] + spec_enc_chat(vs.first()) + spec_enc_chats_sep_items(vs.drop_first())
    }
}

/// The encoded items of a chat list, comma-separated, without brackets.
pub open spec fn spec_enc_chats_items(vs: Seq<ChatMetaView>) -> Seq<char> {
    if vs.len() == 0 {
        Seq::empty()
    } else {
        spec_enc_chat(vs.first()) + spec_enc_chats_sep_items(vs.drop_first())
    }
}

/// A whole encoded chat list.
pub open spec fn spec_enc_chats_list(vs: Seq<ChatMetaView>) -> Seq<char> {
    seq!['['] + spec_enc_chats_items(vs) + seq![']']
}

/// Parse one or more comma-separated chat records followed by the
/// closing bracket, which is consumed.
pub open spec fn spec_parse_chats_items(s: Seq<char>, i: int) -> Option<(Seq<ChatMetaView>, int)>
    decreases s.len() - i,
{
    match spec_parse_chat(s, i) {
        Some(p) => {
            if i < p.1 && p.1 < s.len() {
                if s[p.1] == ',' {
                    match spec_parse_chats_items(s, p.1 + 1) {
                        Some(q) => Some((seq![p.0] + q.0, q.1)),
                        None => None,
                    }
                } else if s[p.1] == ']' {
                    Some((seq![p.0], p.1 + 1))
                } else {
                    None
                }
            } else {
                None
            }
        },
        None => None,
    }
}

/// Parse a whole chat list at `i`.
pub open spec fn spec_parse_chats_list(s: Seq<char>, i: int) -> Option<(Seq<ChatMetaView>, int)> {
    if 0 <= i < s.len() && s[i] == '[' {
        if i + 1 < s.len() && s[i + 1] == ']' {
            Some((Seq::empty(), i + 2))
        } else {
            spec_parse_chats_items(s, i + 1)
        }
    } else {
        None
    }
}

/// Round trip of the items of a non-empty chat list.
#[verifier::rlimit(100)]
#[verifier::spinoff_prover]
pub proof fn lemma_parse_enc_chats_items(s: Seq<char>, i: int, vs: Seq<ChatMetaView>)
    requires
        vs.len() >= 1,
        0 <= i,
        i + spec_enc_chats_items(vs).len() + 1 <= s.len(),
        s.subrange(i, i + spec_enc_chats_items(vs).len() + 1) == spec_enc_chats_items(vs)
            + seq![']'],
    ensures
        spec_parse_chats_items(s, i) == Some((vs, i + spec_enc_chats_items(vs).len() + 1)),
    decreases vs.len(),
{
    let items = spec_enc_chats_items(vs);
    let j = i + items.len() + 1;
    let e = spec_enc_chat(vs.first());
    let rest = vs.drop_first();
    if vs.len() == 1 {
        assert(spec_enc_chats_sep_items(rest) =~= Seq::<char>::empty());
        assert(items =~= e);
        assert(items + seq![']'] =~= e + seq![']']);
        lemma_split_subrange(s, i, e, seq![']']);
        lemma_parse_enc_chat(s, i, vs.first());
        assert(s.subrange(i + e.len(), i + e.len() + 1)[0] == ']');
        assert(s[i + e.len()] == ']');
        assert(spec_parse_chats_items(s, i) == Some((seq![vs.first()], j)));
        assert(seq![vs.first()] =~= vs);
    } else {
        let sep = spec_enc_chats_sep_items(rest);
        assert(items == e + sep);
        assert(sep == seq![','] + spec_enc_chat(rest.first()) + spec_enc_chats_sep_items(
            rest.drop_first(),
        ));
        assert(items + seq![']'] =~= e + (seq![','] + (spec_enc_chats_items(rest) + seq![']'])))
            by {
            assert(spec_enc_chats_items(rest) == spec_enc_chat(rest.first())
                + spec_enc_chats_sep_items(rest.drop_first()));
        }
        lemma_split_subrange(s, i, e, seq![','] + (spec_enc_chats_items(rest) + seq![']']));
        lemma_parse_enc_chat(s, i, vs.first());
        lemma_split_subrange(s, i + e.len(), seq![','], spec_enc_chats_items(rest) + seq![']']);
        assert(s.subrange(i + e.len(), i + e.len() + 1)[0] == ',');
        assert(s[i + e.len()] == ',');
        lemma_parse_enc_chats_items(s, i + e.len() + 1, rest);
        assert(spec_parse_chats_items(s, i) == Some((seq![vs.first()] + rest, j)));
        assert(seq![vs.first()] + rest =~= vs);
    }
}

/// Round trip of a whole chat list.
pub proof fn lemma_parse_enc_chats_list(s: Seq<char>, i: int, vs: Seq<ChatMetaView>)
    requires
        0 <= i,
        i + spec_enc_chats_list(vs).len() <= s.len(),
        s.subrange(i, i + spec_enc_chats_list(vs).len()) == spec_enc_chats_list(vs),
    ensures
        spec_parse_chats_list(s, i) == Some((vs, i + spec_enc_chats_list(vs).len())),
{
    let enc = spec_enc_chats_list(vs);
    let items = spec_enc_chats_items(vs);
    assert(s[i] == enc[0]);
    assert(s[i] == '[');
    assert(enc =~= seq!['['] + (items + seq![']']));
    lemma_split_subrange(s, i, seq!['['], items + seq![']']);
    if vs.len() == 0 {
        assert(s.subrange(i + 1, i + enc.len())[0] == ']');
        assert(s[i + 1] == ']');
    } else {
        reveal_strlit("{\"id\":");
        assert(s.subrange(i + 1, i + enc.len())[0] == items[0]);
        assert(items[0] == spec_enc_chat(vs.first())[0]);
        assert(s[i + 1] == '{');
        assert(s[i + 1] != ']');
        lemma_parse_enc_chats_items(s, i + 1, vs);
    }
}

/// Append the encoding of a chat list to `out`.
#[verifier::rlimit(100)]
#[verifier::spinoff_prover]
pub fn write_chats_list(out: &mut String, vs: &Vec<ChatMeta>)
    ensures
        final(out)@ == old(out)@ + spec_enc_chats_list(vs@.map_values(|x: ChatMeta| x@)),
{
    let ghost views = vs@.map_values(|x: ChatMeta| x@);
    push_char(out, '[');
    if vs.len() == 0 {
        push_char(out, ']');
        proof {
            assert(final(out)@ =~= old(out)@ + spec_enc_chats_list(views));
        }
        return ;
    }
    write_chat(out, &vs[0]);
    let mut i: usize = 1;
    proof {
        assert(views.subrange(1, views.len() as int) =~= views.drop_first());
        assert(out@ =~= old(out)@ + seq!['['] + spec_enc_chat(views.first()));
    }
    while i < vs.len()
        invariant
            1 <= i <= vs.len(),
            views == vs@.map_values(|x: ChatMeta| x@),
            views.len() == vs@.len(),
            out@ + spec_enc_chats_sep_items(views.subrange(i as int, views.len() as int))
                == old(out)@ + seq!['['] + spec_enc_chats_items(views),
        decreases vs.len() - i,
    {
        proof {
            let tail = views.subrange(i as int, views.len() as int);
            assert(tail.first() == views[i as int]);
            assert(tail.drop_first() =~= views.subrange(i + 1, views.len() as int));
        }
        push_char(out, ',');
        write_chat(out, &vs[i]);
        i = i + 1;
    }
    push_char(out, ']');
    proof {
        assert(views.subrange(views.len() as int, views.len() as int) =~= Seq::<ChatMetaView>::empty());
        assert(final(out)@ =~= old(out)@ + spec_enc_chats_list(views));
    }
}

/// Parse a chat list at `start`.
pub fn parse_chats_list(s: &str, start: usize) -> (r: Option<(Vec<ChatMeta>, usize)>)
    ensures
        match r {
            Some(p) => spec_parse_chats_list(s@, start as int) == Some(
                (p.0@.map_values(|x: ChatMeta| x@), p.1 as int),
            ) && start < p.1 <= s@.len(),
            None => spec_parse_chats_list(s@, start as int) is None,
        },
{
    let n = s.unicode_len();
    if start >= n || s.get_char(start) != '[' {
        return None;
    }
    if start + 1 < n && s.get_char(start + 1) == ']' {
        let out: Vec<ChatMeta> = Vec::new();
        proof {
            assert(out@.map_values(|x: ChatMeta| x@) =~= Seq::<ChatMetaView>::empty());
        }
        return Some((out, start + 2));
    }
    let mut acc: Vec<ChatMeta> = Vec::new();
    let mut i: usize = start + 1;
    proof {
        assert(acc@.map_values(|x: ChatMeta| x@) =~= Seq::<ChatMetaView>::empty());
    }
    loop
        invariant
            start + 1 <= i <= n,
            n == s@.len(),
            s@[start as int] == '[',
            !(start + 1 < s@.len() && s@[start as int + 1] == ']'),
            (match spec_parse_chats_items(s@, i as int) {
                Some(q) => spec_parse_chats_items(s@, start + 1) == Some(
                    (acc@.map_values(|x: ChatMeta| x@) + q.0, q.1),
                ),
                None => spec_parse_chats_items(s@, start + 1) is None,
            }),
        decreases n - i,
    {
        match parse_chat(s, i) {
            None => {
                return None;
            },
            Some((v, j)) => {
                let ghost accv = acc@.map_values(|x: ChatMeta| x@);
                let ghost vv = v@;
                acc.push(v);
                proof {
                    assert(acc@.map_values(|x: ChatMeta| x@) =~= accv.push(vv));
                }
                if j < n && s.get_char(j) == ',' {
                    proof {
                        match spec_parse_chats_items(s@, j + 1) {
                            Some(q) => {
                                assert(spec_parse_chats_items(s@, i as int) == Some(
                                    (seq![vv] + q.0, q.1),
                                ));
                                assert(accv.push(vv) + q.0 =~= accv + (seq![vv] + q.0));
                            },
                            None => {},
                        }
                    }
                    i = j + 1;
                } else if j < n && s.get_char(j) == ']' {
                    proof {
                        assert(spec_parse_chats_items(s@, i as int) == Some((seq![vv], j + 1)));
                        assert(accv.push(vv) =~= accv + seq![vv]);
                    }
                    return Some((acc, j + 1));
                } else {
                    return None;
                }
            },
        }
    }
}


/// The encoded document of the chat data.
pub open spec fn spec_enc_chat_data(v: ChatDataView) -> Seq<char> {
    "{\"messages\":"@ + spec_enc_messages_list(v.messages) + "}"@
}

/// Parse the chat data document at `i`.
pub open spec fn spec_parse_chat_data(s: Seq<char>, i: int) -> Option<(ChatDataView, int)> {
    match spec_parse_lit(s, i, "{\"messages\":"@) {
        Some(j) => match spec_parse_messages_list(s, j) {
            Some(p) => match spec_parse_lit(s, p.1, "}"@) {
                Some(jend) => Some((ChatDataView { messages: p.0 }, jend)),
                None => None,
            },
            None => None,
        },
        None => None,
    }
}

/// Round trip of the chat data document.
pub proof fn lemma_parse_enc_chat_data(s: Seq<char>, i: int, v: ChatDataView)
    requires
        0 <= i,
        i + spec_enc_chat_data(v).len() <= s.len(),
        s.subrange(i, i + spec_enc_chat_data(v).len()) == spec_enc_chat_data(v),
    ensures
        spec_parse_chat_data(s, i) == Some((v, i + spec_enc_chat_data(v).len())),
{
    let l0 = "{\"messages\":"@;
    let e0 = spec_enc_messages_list(v.messages);
    let lend = "}"@;
    assert(spec_enc_chat_data(v) == l0 + e0 + lend);
    assert(s.subrange(i, i + spec_enc_chat_data(v).len()) =~= l0 + (e0 + (lend)));
    lemma_split_subrange(s, i, l0, e0 + (lend));
    lemma_split_subrange(s, i + l0.len(), e0, lend);
    lemma_parse_enc_messages_list(s, i + l0.len(), v.messages);
}

/// Encode the chat data document.
pub fn encode_chat_data(v: &ChatData) -> (r: String)
    ensures
        r@ == spec_enc_chat_data(v@),
{
    let mut out = String::new();
    out.append("{\"messages\":");
    write_messages_list(&mut out, &v.messages);
    out.append("}");
    proof {
        assert(out@ =~= spec_enc_chat_data(v@));
    }
    out
}

/// What decoding a whole chat data file yields: the document
/// must fill the entire input.
pub open spec fn spec_decode_chat_data(s: Seq<char>) -> Option<ChatDataView> {
    match spec_parse_chat_data(s, 0) {
        Some(p) => if p.1 == s.len() {
            Some(p.0)
        } else {
            None
        },
        None => None,
    }
}

/// Decode a whole chat data file.
pub fn decode_chat_data(s: &str) -> (r: Option<ChatData>)
    ensures
        match r {
            Some(v) => spec_decode_chat_data(s@) == Some(v@),
            None => spec_decode_chat_data(s@) is None,
        },
{
    let n = s.unicode_len();
    let j0 = match expect_lit(s, 0, "{\"messages\":") {
        Some(j) => j,
        None => { return None; },
    };
    let (val, k0) = match parse_messages_list(s, j0) {
        Some(p) => p,
        None => { return None; },
    };
    let jend = match expect_lit(s, k0, "}") {
        Some(j) => j,
        None => { return None; },
    };
    if jend != n {
        return None;
    }
    let doc = ChatData { messages: val };
    proof {
        assert(spec_parse_chat_data(s@, 0) == Some((doc@, jend as int)));
    }
    Some(doc)
}

/// Law: saving and loading the chat data reproduces the identical
/// entities.
pub proof fn lemma_chat_data_round_trip(v: ChatDataView)
    ensures
        spec_decode_chat_data(spec_enc_chat_data(v)) == Some(v),
{
    let enc = spec_enc_chat_data(v);
    assert(enc.subrange(0, enc.len() as int) =~= enc);
    lemma_parse_enc_chat_data(enc, 0, v);
}

/// The encoded document of the chats index.
pub open spec fn spec_enc_chats_index(v: ChatsIndexView) -> Seq<char> {
    "{\"chats\":"@ + spec_enc_chats_list(v.chats) + "}"@
}

/// Parse the chats index document at `i`.
pub open spec fn spec_parse_chats_index(s: Seq<char>, i: int) -> Option<(ChatsIndexView, int)> {
    match spec_parse_lit(s, i, "{\"chats\":"@) {
        Some(j) => match spec_parse_chats_list(s, j) {
            Some(p) => match spec_parse_lit(s, p.1, "}"@) {
                Some(jend) => Some((ChatsIndexView { chats: p.0 }, jend)),
                None => None,
            },
            None => None,
        },
        None => None,
    }
}

/// Round trip of the chats index document.
pub proof fn lemma_parse_enc_chats_index(s: Seq<char>, i: int, v: ChatsIndexView)
    requires
        0 <= i,
        i + spec_enc_chats_index(v).len() <= s.len(),
        s.subrange(i, i + spec_enc_chats_index(v).len()) == spec_enc_chats_index(v),
    ensures
        spec_parse_chats_index(s, i) == Some((v, i + spec_enc_chats_index(v).len())),
{
    let l0 = "{\"chats\":"@;
    let e0 = spec_enc_chats_list(v.chats);
    let lend = "}"@;
    assert(spec_enc_chats_index(v) == l0 + e0 + lend);
    assert(s.subrange(i, i + spec_enc_chats_index(v).len()) =~= l0 + (e0 + (lend)));
    lemma_split_subrange(s, i, l0, e0 + (lend));
    lemma_split_subrange(s, i + l0.len(), e0, lend);
    lemma_parse_enc_chats_list(s, i + l0.len(), v.chats);
}

/// Encode the chats index document.
pub fn encode_chats_index(v: &ChatsIndex) -> (r: String)
    ensures
        r@ == spec_enc_chats_index(v@),
{
    let mut out = String::new();
    out.append("{\"chats\":");
    write_chats_list(&mut out, &v.chats);
    out.append("}");
    proof {
        assert(out@ =~= spec_enc_chats_index(v@));
    }
    out
}

/// What decoding a whole chats index file yields: the document
/// must fill the entire input.
pub open spec fn spec_decode_chats_index(s: Seq<char>) -> Option<ChatsIndexView> {
    match spec_parse_chats_index(s, 0) {
        Some(p) => if p.1 == s.len() {
            Some(p.0)
        } else {
            None
        },
        None => None,
    }
}

/// Decode a whole chats index file.
pub fn decode_chats_index(s: &str) -> (r: Option<ChatsIndex>)
    ensures
        match r {
            Some(v) => spec_decode_chats_index(s@) == Some(v@),
            None => spec_decode_chats_index(s@) is None,
        },
{
    let n = s.unicode_len();
    let j0 = match expect_lit(s, 0, "{\"chats\":") {
        Some(j) => j,
        None => { return None; },
    };
    let (val, k0) = match parse_chats_list(s, j0) {
        Some(p) => p,
        None => { return None; },
    };
    let jend = match expect_lit(s, k0, "}") {
        Some(j) => j,
        None => { return None; },
    };
    if jend != n {
        return None;
    }
    let doc = ChatsIndex { chats: val };
    proof {
        assert(spec_parse_chats_index(s@, 0) == Some((doc@, jend as int)));
    }
    Some(doc)
}

/// Law: saving and loading the chats index reproduces the identical
/// entities.
pub proof fn lemma_chats_index_round_trip(v: ChatsIndexView)
    ensures
        spec_decode_chats_index(spec_enc_chats_index(v)) == Some(v),
{
    let enc = spec_enc_chats_index(v);
    assert(enc.subrange(0, enc.len() as int) =~= enc);
    lemma_parse_enc_chats_index(enc, 0, v);
}

/// The encoded document of the folders index.
pub open spec fn spec_enc_folders_index(v: FoldersIndexView) -> Seq<char> {
    "{\"folders\":"@ + spec_enc_folders_list(v.folders) + "}"@
}

/// Parse the folders index document at `i`.
pub open spec fn spec_parse_folders_index(s: Seq<char>, i: int) -> Option<(FoldersIndexView, int)> {
    match spec_parse_lit(s, i, "{\"folders\":"@) {
        Some(j) => match spec_parse_folders_list(s, j) {
            Some(p) => match spec_parse_lit(s, p.1, "}"@) {
                Some(jend) => Some((FoldersIndexView { folders: p.0 }, jend)),
                None => None,
            },
            None => None,
        },
        None => None,
    }
}

/// Round trip of the folders index document.
pub proof fn lemma_parse_enc_folders_index(s: Seq<char>, i: int, v: FoldersIndexView)
    requires
        0 <= i,
        i + spec_enc_folders_index(v).len() <= s.len(),
        s.subrange(i, i + spec_enc_folders_index(v).len()) == spec_enc_folders_index(v),
    ensures
        spec_parse_folders_index(s, i) == Some((v, i + spec_enc_folders_index(v).len())),
{
    let l0 = "{\"folders\":"@;
    let e0 = spec_enc_folders_list(v.folders);
    let lend = "}"@;
    assert(spec_enc_folders_index(v) == l0 + e0 + lend);
    assert(s.subrange(i, i + spec_enc_folders_index(v).len()) =~= l0 + (e0 + (lend)));
    lemma_split_subrange(s, i, l0, e0 + (lend));
    lemma_split_subrange(s, i + l0.len(), e0, lend);
    lemma_parse_enc_folders_list(s, i + l0.len(), v.folders);
}

/// Encode the folders index document.
pub fn encode_folders_index(v: &FoldersIndex) -> (r: String)
    ensures
        r@ == spec_enc_folders_index(v@),
{
    let mut out = String::new();
    out.append("{\"folders\":");
    write_folders_list(&mut out, &v.folders);
    out.append("}");
    proof {
        assert(out@ =~= spec_enc_folders_index(v@));
    }
    out
}

/// What decoding a whole folders index file yields: the document
/// must fill the entire input.
pub open spec fn spec_decode_folders_index(s: Seq<char>) -> Option<FoldersIndexView> {
    match spec_parse_folders_index(s, 0) {
        Some(p) => if p.1 == s.len() {
            Some(p.0)
        } else {
            None
        },
        None => None,
    }
}

/// Decode a whole folders index file.
pub fn decode_folders_index(s: &str) -> (r: Option<FoldersIndex>)
    ensures
        match r {
            Some(v) => spec_decode_folders_index(s@) == Some(v@),
            None => spec_decode_folders_index(s@) is None,
        },
{
    let n = s.unicode_len();
    let j0 = match expect_lit(s, 0, "{\"folders\":") {
        Some(j) => j,
        None => { return None; },
    };
    let (val, k0) = match parse_folders_list(s, j0) {
        Some(p) => p,
        None => { return None; },
    };
    let jend = match expect_lit(s, k0, "}") {
        Some(j) => j,
        None => { return None; },
    };
    if jend != n {
        return None;
    }
    let doc = FoldersIndex { folders: val };
    proof {
        assert(spec_parse_folders_index(s@, 0) == Some((doc@, jend as int)));
    }
    Some(doc)
}

/// Law: saving and loading the folders index reproduces the identical
/// entities.
pub proof fn lemma_folders_index_round_trip(v: FoldersIndexView)
    ensures
        spec_decode_folders_index(spec_enc_folders_index(v)) == Some(v),
{
    let enc = spec_enc_folders_index(v);
    assert(enc.subrange(0, enc.len() as int) =~= enc);
    lemma_parse_enc_folders_index(enc, 0, v);
}


/// The encoded document of the workspaces index: the workspaces and the
/// active workspace pointer.
pub open spec fn spec_enc_workspaces_index(v: WorkspacesIndexView) -> Seq<char> {
    "{\"workspaces\":"@ + spec_enc_workspaces_list(v.workspaces) + ",\"active_workspace_id\":"@
        + spec_enc_str(v.active_workspace_id) + "}"@
}

/// Parse the workspaces index document at `i`.
pub open spec fn spec_parse_workspaces_index(s: Seq<char>, i: int) -> Option<
    (WorkspacesIndexView, int),
> {
    match spec_parse_lit(s, i, "{\"workspaces\":"@) {
        Some(j) => match spec_parse_workspaces_list(s, j) {
            Some(p) => match spec_parse_lit(s, p.1, ",\"active_workspace_id\":"@) {
                Some(j2) => match spec_parse_str(s, j2) {
                    Some(q) => match spec_parse_lit(s, q.1, "}"@) {
                        Some(jend) => Some(
                            (
                                WorkspacesIndexView {
                                    workspaces: p.0,
                                    active_workspace_id: q.0,
                                },
                                jend,
                            ),
                        ),
                        None => None,
                    },
                    None => None,
                },
                None => None,
            },
            None => None,
        },
        None => None,
    }
}

/// Round trip of the workspaces index document.
pub proof fn lemma_parse_enc_workspaces_index(s: Seq<char>, i: int, v: WorkspacesIndexView)
    requires
        0 <= i,
        i + spec_enc_workspaces_index(v).len() <= s.len(),
        s.subrange(i, i + spec_enc_workspaces_index(v).len()) == spec_enc_workspaces_index(v),
    ensures
        spec_parse_workspaces_index(s, i) == Some((v, i + spec_enc_workspaces_index(v).len())),
{
    let l0 = "{\"workspaces\":"@;
    let e0 = spec_enc_workspaces_list(v.workspaces);
    let l1 = ",\"active_workspace_id\":"@;
    let e1 = spec_enc_str(v.active_workspace_id);
    let lend = "}"@;
    assert(spec_enc_workspaces_index(v) == l0 + e0 + l1 + e1 + lend);
    assert(s.subrange(i, i + spec_enc_workspaces_index(v).len()) =~= l0 + (e0 + (l1 + (e1
        + (lend)))));
    lemma_split_subrange(s, i, l0, e0 + (l1 + (e1 + (lend))));
    lemma_split_subrange(s, i + l0.len(), e0, l1 + (e1 + (lend)));
    lemma_parse_enc_workspaces_list(s, i + l0.len(), v.workspaces);
    lemma_split_subrange(s, i + l0.len() + e0.len(), l1, e1 + (lend));
    lemma_split_subrange(s, i + l0.len() + e0.len() + l1.len(), e1, lend);
    lemma_parse_enc_str(s, i + l0.len() + e0.len() + l1.len(), v.active_workspace_id);
}

/// Encode the workspaces index document.
pub fn encode_workspaces_index(v: &WorkspacesIndex) -> (r: String)
    ensures
        r@ == spec_enc_workspaces_index(v@),
{
    let mut out = String::new();
    out.append("{\"workspaces\":");
    write_workspaces_list(&mut out, &v.workspaces);
    out.append(",\"active_workspace_id\":");
    write_str(&mut out, v.active_workspace_id.as_str());
    out.append("}");
    proof {
        assert(out@ =~= spec_enc_workspaces_index(v@));
    }
    out
}

/// What decoding a whole workspaces index file yields: the document must
/// fill the entire input.
pub open spec fn spec_decode_workspaces_index(s: Seq<char>) -> Option<WorkspacesIndexView> {
    match spec_parse_workspaces_index(s, 0) {
        Some(p) => if p.1 == s.len() {
            Some(p.0)
        } else {
            None
        },
        None => None,
    }
}

/// Decode a whole workspaces index file.
pub fn decode_workspaces_index(s: &str) -> (r: Option<WorkspacesIndex>)
    ensures
        match r {
            Some(v) => spec_decode_workspaces_index(s@) == Some(v@),
            None => spec_decode_workspaces_index(s@) is None,
        },
{
    let n = s.unicode_len();
    let j0 = match expect_lit(s, 0, "{\"workspaces\":") {
        Some(j) => j,
        None => { return None; },
    };
    let (ws, k0) = match parse_workspaces_list(s, j0) {
        Some(p) => p,
        None => { return None; },
    };
    let j1 = match expect_lit(s, k0, ",\"active_workspace_id\":") {
        Some(j) => j,
        None => { return None; },
    };
    let (active, k1) = match parse_str(s, j1) {
        Some(p) => p,
        None => { return None; },
    };
    let jend = match expect_lit(s, k1, "}") {
        Some(j) => j,
        None => { return None; },
    };
    if jend != n {
        return None;
    }
    let doc = WorkspacesIndex { workspaces: ws, active_workspace_id: active };
    proof {
        assert(spec_parse_workspaces_index(s@, 0) == Some((doc@, jend as int)));
    }
    Some(doc)
}

/// Law: saving and loading the workspaces index reproduces the identical
/// entities.
pub proof fn lemma_workspaces_index_round_trip(v: WorkspacesIndexView)
    ensures
        spec_decode_workspaces_index(spec_enc_workspaces_index(v)) == Some(v),
{
    let enc = spec_enc_workspaces_index(v);
    assert(enc.subrange(0, enc.len() as int) =~= enc);
    lemma_parse_enc_workspaces_index(enc, 0, v);
}

/// The encoded request sent to the model backend: the model, the full
/// message history, and the instruction to stream the reply.
pub open spec fn spec_enc_chat_request(model: Seq<char>, msgs: Seq<ChatMessageView>) -> Seq<
    char,
> {
    "{\"model\":"@ + spec_enc_str(model) + ",\"messages\":"@ + spec_enc_messages_list(msgs)
        + ",\"stream\":true}"@
}

/// Encode the backend request.
pub fn encode_chat_request(model: &str, msgs: &Vec<ChatMessage>) -> (r: String)
    ensures
        r@ == spec_enc_chat_request(model@, msgs@.map_values(|m: ChatMessage| m@)),
{
    let mut out = String::new();
    out.append("{\"model\":");
    write_str(&mut out, model);
    out.append(",\"messages\":");
    write_messages_list(&mut out, msgs);
    out.append(",\"stream\":true}");
    proof {
        assert(out@ =~= spec_enc_chat_request(model@, msgs@.map_values(|m: ChatMessage| m@)));
    }
    out
}

} // verus!
