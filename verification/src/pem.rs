//! PEM framing of key bytes: standard base64 cut into lines of 64
//! characters between `-----BEGIN <label>-----` and `-----END <label>-----`,
//! and the reading back of the body of such a text.
use vstd::prelude::*;
use crate::b64::is_base64_symbol;
use crate::text::{chars_of, push_char};

verus! {

/// `char::is_whitespace`: the characters with the Unicode `White_Space`
/// property.
pub open spec fn is_whitespace(c: char) -> bool {
    let u = c as u32;
    (9 <= u <= 13) || u == 32 || u == 0x85 || u == 0xa0 || u == 0x1680 || (0x2000 <= u <= 0x200a)
        || u == 0x2028 || u == 0x2029 || u == 0x202f || u == 0x205f || u == 0x3000
}

/// `s` without its whitespace characters.
pub open spec fn strip_whitespace(s: Seq<char>) -> Seq<char>
    decreases s.len(),
{
    if s.len() == 0 {
        s
    } else if is_whitespace(s.last()) {
        strip_whitespace(s.drop_last())
    } else {
        strip_whitespace(s.drop_last()).push(s.last())
    }
}

/// The length of the first line of `s`: the position of its first `\n`, or
/// its length when it has none.
pub open spec fn line_end(s: Seq<char>) -> nat
    decreases s.len(),
{
    if s.len() == 0 || s[0] == '\n' {
        0
    } else {
        1 + line_end(s.drop_first())
    }
}

/// A line that starts with five dashes (a `BEGIN` or `END` line).
pub open spec fn is_armor_line(line: Seq<char>) -> bool {
    &&& line.len() >= 5
    &&& line[0] == '-'
    &&& line[1] == '-'
    &&& line[2] == '-'
    &&& line[3] == '-'
    &&& line[4] == '-'
}

/// What a line contributes to the body: nothing for an armor line, else its
/// characters other than whitespace.
pub open spec fn kept_line(line: Seq<char>) -> Seq<char> {
    if is_armor_line(line) {
        Seq::empty()
    } else {
        strip_whitespace(line)
    }
}

/// The body of a PEM text: its lines (split at `\n`) that do not start
/// with five dashes, with all whitespace removed, one after the other.
pub open spec fn pem_body(s: Seq<char>) -> Seq<char>
    decreases s.len(),
{
    if s.len() == 0 {
        Seq::empty()
    } else if line_end(s) < s.len() {
        kept_line(s.take(line_end(s) as int)) + pem_body(s.skip(line_end(s) + 1int))
    } else {
        kept_line(s)
    }
}

/// `t` cut into lines of 64 characters: a `\n` goes before every position
/// that is a positive multiple of 64.
pub open spec fn wrap_lines(t: Seq<char>) -> Seq<char>
    decreases t.len(),
{
    if t.len() == 0 {
        t
    } else if t.len() > 1 && (t.len() - 1) % 64 == 0 {
        wrap_lines(t.drop_last()).push('\n').push(t.last())
    } else {
        wrap_lines(t.drop_last()).push(t.last())
    }
}

/// Line layout of wrapped text: a line break stands at every position `k`
/// with `k + 1` a multiple of 65 (after each full line of 64 characters,
/// however long the text), and every other position holds the next
/// character of `t` in order; no break follows the last line.
pub proof fn wrap_lines_layout(t: Seq<char>)
    ensures
        t.len() == 0 ==> wrap_lines(t).len() == 0,
        t.len() > 0 ==> wrap_lines(t).len() == t.len() + (t.len() - 1) / 64,
        forall|k: int|
            0 <= k < wrap_lines(t).len() ==> #[trigger] wrap_lines(t)[k] == if (k + 1) % 65 == 0 {
                '\n'
            } else {
                t[k - k / 65]
            },
    decreases t.len(),
{
    if t.len() > 0 {
        let u = t.drop_last();
        wrap_lines_layout(u);
        let m = u.len() as int;
        let w = wrap_lines(u);
        let c = t.last();
        let r = wrap_lines(t);
        if m == 0 {
            assert(r =~= seq![c]);
        } else if m % 64 == 0 {
            assert(r == w.push('\n').push(c));
            assert(w.len() == m + (m - 1) / 64);
            assert((m - 1) / 64 == m / 64 - 1);
            assert forall|k: int| 0 <= k < r.len() implies #[trigger] r[k] == if (k + 1) % 65 == 0 {
                '\n'
            } else {
                t[k - k / 65]
            } by {
                if k < w.len() {
                    assert(r[k] == w[k]);
                    if (k + 1) % 65 != 0 {
                        assert(u[k - k / 65] == t[k - k / 65]);
                    }
                } else if k == w.len() {
                    assert((k + 1) % 65 == 0);
                } else {
                    assert(k == m + m / 64);
                    assert(k / 65 == m / 64);
                    assert((k + 1) % 65 != 0);
                }
            }
        } else {
            assert(r == w.push(c));
            assert((m - 1) / 64 == m / 64);
            assert forall|k: int| 0 <= k < r.len() implies #[trigger] r[k] == if (k + 1) % 65 == 0 {
                '\n'
            } else {
                t[k - k / 65]
            } by {
                if k < w.len() {
                    assert(r[k] == w[k]);
                    if (k + 1) % 65 != 0 {
                        assert(u[k - k / 65] == t[k - k / 65]);
                    }
                } else {
                    assert(k == m + m / 64);
                    assert(k / 65 == m / 64);
                    assert((k + 1) % 65 != 0);
                }
            }
        }
    }
}

/// Five dashes.
pub open spec fn dashes() -> Seq<char> {
    seq!['-', '-', '-', '-', '-']
}

/// The first line of a PEM text with label `label`.
pub open spec fn begin_line(label: Seq<char>) -> Seq<char> {
    dashes() + seq!['B', 'E', 'G', 'I', 'N', ' '] + label + dashes()
}

/// The last line of a PEM text with label `label`.
pub open spec fn end_line(label: Seq<char>) -> Seq<char> {
    dashes() + seq!['E', 'N', 'D', ' '] + label + dashes()
}

/// The PEM text of the base64 text `t` with label `label`.
pub open spec fn pem_text(t: Seq<char>, label: Seq<char>) -> Seq<char> {
    begin_line(label) + seq!['\n'] + wrap_lines(t) + seq!['\n'] + end_line(label)
}

/// No character of `s` is `c`.
pub open spec fn lacks(s: Seq<char>, c: char) -> bool {
    forall|i: int| 0 <= i < s.len() ==> #[trigger] s[i] != c
}

proof fn lemma_line_end(s: Seq<char>, m: nat)
    requires
        m <= s.len(),
        forall|k: int| 0 <= k < m ==> #[trigger] s[k] != '\n',
        m == s.len() || s[m as int] == '\n',
    ensures
        line_end(s) == m,
    decreases m,
{
    if m > 0 {
        assert(s[0] != '\n');
        let t = s.drop_first();
        assert forall|k: int| 0 <= k < m - 1 implies #[trigger] t[k] != '\n' by {
            assert(t[k] == s[k + 1]);
        }
        if m < s.len() {
            assert(t[m - 1] == s[m as int]);
        }
        lemma_line_end(t, (m - 1) as nat);
    }
}

proof fn lemma_strip_add(a: Seq<char>, b: Seq<char>)
    ensures
        strip_whitespace(a + b) == strip_whitespace(a) + strip_whitespace(b),
    decreases b.len(),
{
    if b.len() == 0 {
        assert(a + b =~= a);
        assert(strip_whitespace(a) + strip_whitespace(b) =~= strip_whitespace(a));
    } else {
        lemma_strip_add(a, b.drop_last());
        assert((a + b).drop_last() =~= a + b.drop_last());
        assert((a + b).last() == b.last());
        if !is_whitespace(b.last()) {
            assert(strip_whitespace(a) + strip_whitespace(b.drop_last()).push(b.last()) =~= (
            strip_whitespace(a) + strip_whitespace(b.drop_last())).push(b.last()));
        }
    }
}

/// A line without `\n` is its own body.
proof fn lemma_single_line(l: Seq<char>)
    requires
        lacks(l, '\n'),
    ensures
        pem_body(l) == kept_line(l),
{
    if l.len() > 0 {
        lemma_line_end(l, l.len());
    } else {
        assert(strip_whitespace(l) =~= Seq::<char>::empty());
    }
}

/// The body of a first line, a `\n` and a rest.
proof fn lemma_first_line(l: Seq<char>, y: Seq<char>)
    requires
        lacks(l, '\n'),
    ensures
        pem_body(l + seq!['\n'] + y) == kept_line(l) + pem_body(y),
{
    let s = l + seq!['\n'] + y;
    assert forall|k: int| 0 <= k < l.len() implies #[trigger] s[k] != '\n' by {
        assert(s[k] == l[k]);
    }
    assert(s[l.len() as int] == '\n');
    lemma_line_end(s, l.len());
    assert(s.take(l.len() as int) =~= l);
    assert(s.skip(l.len() + 1int) =~= y);
}

/// The body of two texts joined by a `\n` is the body of the one followed
/// by that of the other.
proof fn lemma_join(x: Seq<char>, y: Seq<char>)
    ensures
        pem_body(x + seq!['\n'] + y) == pem_body(x) + pem_body(y),
    decreases x.len(),
{
    let e = line_end(x);
    if e < x.len() {
        let l = x.take(e as int);
        let rest = x.skip(e + 1int);
        assert forall|k: int| 0 <= k < e implies #[trigger] x[k] != '\n' by {
            lemma_line_end_prefix(x, k);
        }
        assert forall|k: int| 0 <= k < l.len() implies #[trigger] l[k] != '\n' by {
            assert(l[k] == x[k]);
        }
        assert(x =~= l + seq!['\n'] + rest) by {
            lemma_line_end_at(x);
        }
        lemma_join(rest, y);
        assert(x + seq!['\n'] + y =~= l + seq!['\n'] + (rest + seq!['\n'] + y));
        lemma_first_line(l, rest + seq!['\n'] + y);
        lemma_first_line(l, rest);
        assert(kept_line(l) + (pem_body(rest) + pem_body(y)) =~= kept_line(l) + pem_body(rest)
            + pem_body(y));
    } else {
        assert forall|k: int| 0 <= k < x.len() implies #[trigger] x[k] != '\n' by {
            lemma_line_end_prefix(x, k);
        }
        lemma_first_line(x, y);
        lemma_single_line(x);
    }
}

/// No `\n` comes before the end of the first line.
proof fn lemma_line_end_prefix(s: Seq<char>, k: int)
    requires
        0 <= k < line_end(s),
    ensures
        s[k] != '\n',
    decreases k,
{
    assert(s.len() > 0 && s[0] != '\n');
    lemma_line_end_at(s);
    if k > 0 {
        lemma_line_end_prefix(s.drop_first(), k - 1);
        assert(s.drop_first()[k - 1] == s[k]);
    }
}

/// The first line ends at a `\n`, or at the end of the text.
proof fn lemma_line_end_at(s: Seq<char>)
    ensures
        line_end(s) <= s.len(),
        line_end(s) < s.len() ==> s[line_end(s) as int] == '\n',
    decreases s.len(),
{
    if s.len() > 0 && s[0] != '\n' {
        lemma_line_end_at(s.drop_first());
    }
}

proof fn lemma_strip_newline()
    ensures
        strip_whitespace(seq!['\n']) == Seq::<char>::empty(),
{
    let s = seq!['\n'];
    assert(s.last() == '\n');
    assert(is_whitespace('\n'));
    assert(s.drop_last() =~= Seq::<char>::empty());
    assert(strip_whitespace(s.drop_last()) =~= Seq::<char>::empty());
}

/// A text without dashes has as body its characters other than whitespace.
proof fn lemma_body_without_dashes(s: Seq<char>)
    requires
        lacks(s, '-'),
    ensures
        pem_body(s) == strip_whitespace(s),
    decreases s.len(),
{
    if s.len() > 0 {
        let e = line_end(s);
        lemma_line_end_at(s);
        if e < s.len() {
            let l = s.take(e as int);
            let rest = s.skip(e + 1int);
            assert(l.len() >= 5 ==> l[0] == s[0]);
            assert(!is_armor_line(l));
            assert forall|i: int| 0 <= i < rest.len() implies #[trigger] rest[i] != '-' by {
                assert(rest[i] == s[e + 1 + i]);
            }
            lemma_body_without_dashes(rest);
            assert(s =~= l + seq!['\n'] + rest);
            lemma_strip_add(l + seq!['\n'], rest);
            lemma_strip_add(l, seq!['\n']);
            lemma_strip_newline();
            assert(strip_whitespace(l) + Seq::<char>::empty() =~= strip_whitespace(l));
        } else {
            assert(s.len() >= 5 ==> s[0] != '-');
            assert(!is_armor_line(s));
        }
    }
}

/// Facts of the wrapped text of base64 symbols: no dashes, and the symbols
/// come back when the line breaks are taken out.
proof fn lemma_wrap_lines(t: Seq<char>)
    requires
        forall|i: int| 0 <= i < t.len() ==> #[trigger] is_base64_symbol(t[i]),
    ensures
        lacks(wrap_lines(t), '-'),
        strip_whitespace(wrap_lines(t)) == t,
    decreases t.len(),
{
    if t.len() > 0 {
        let u = t.drop_last();
        assert forall|i: int| 0 <= i < u.len() implies #[trigger] is_base64_symbol(u[i]) by {
            assert(u[i] == t[i]);
        }
        lemma_wrap_lines(u);
        let w = wrap_lines(u);
        let c = t.last();
        assert(is_base64_symbol(t[t.len() - 1]));
        assert(!is_whitespace(c) && c != '-');
        if t.len() > 1 && (t.len() - 1) % 64 == 0 {
            let w1 = w.push('\n');
            assert(w1.push(c).drop_last() =~= w1);
            assert(w1.drop_last() =~= w);
            assert(w1.last() == '\n');
            assert(is_whitespace('\n'));
            assert(strip_whitespace(w1) == strip_whitespace(w));
            assert(strip_whitespace(w1.push(c)) == strip_whitespace(w1).push(c));
            assert forall|i: int| 0 <= i < w1.push(c).len() implies #[trigger] w1.push(c)[i] != '-' by {
                if i < w.len() {
                    assert(w1.push(c)[i] == w[i]);
                }
            }
        } else {
            assert(w.push(c).drop_last() =~= w);
            assert(strip_whitespace(w.push(c)) == strip_whitespace(w).push(c));
            assert forall|i: int| 0 <= i < w.push(c).len() implies #[trigger] w.push(c)[i] != '-' by {
                if i < w.len() {
                    assert(w.push(c)[i] == w[i]);
                }
            }
        }
        assert(u.push(c) =~= t);
    }
}

/// Reading the body of the PEM text of base64 symbols `t`, under a label
/// without line breaks, gives back `t`.
pub proof fn lemma_pem_body_of_pem_text(t: Seq<char>, label: Seq<char>)
    requires
        forall|i: int| 0 <= i < t.len() ==> #[trigger] is_base64_symbol(t[i]),
        lacks(label, '\n'),
    ensures
        pem_body(pem_text(t, label)) == t,
{
    let a = begin_line(label);
    let b = end_line(label);
    let w = wrap_lines(t);
    assert forall|i: int| 0 <= i < a.len() implies #[trigger] a[i] != '\n' by {
        if 11 <= i < 11 + label.len() {
            assert(a[i] == label[i - 11]);
        }
    }
    assert forall|i: int| 0 <= i < b.len() implies #[trigger] b[i] != '\n' by {
        if 9 <= i < 9 + label.len() {
            assert(b[i] == label[i - 9]);
        }
    }
    assert(is_armor_line(a));
    assert(is_armor_line(b));
    assert(pem_text(t, label) =~= a + seq!['\n'] + (w + seq!['\n'] + b));
    lemma_first_line(a, w + seq!['\n'] + b);
    lemma_join(w, b);
    lemma_wrap_lines(t);
    lemma_body_without_dashes(w);
    lemma_single_line(b);
    assert(Seq::<char>::empty() + (t + Seq::<char>::empty()) =~= t);
}

fn is_whitespace_exec(c: char) -> (b: bool)
    ensures
        b == is_whitespace(c),
{
    let u = c as u32;
    (9 <= u && u <= 13) || u == 32 || u == 0x85 || u == 0xa0 || u == 0x1680 || (0x2000 <= u && u
        <= 0x200a) || u == 0x2028 || u == 0x2029 || u == 0x202f || u == 0x205f || u == 0x3000
}

/// Appends the characters of `cs` to `out`.
fn push_all(out: &mut String, cs: &Vec<char>)
    ensures
        final(out)@ == old(out)@ + cs@,
{
    let ghost start = out@;
    let mut k: usize = 0;
    while k < cs.len()
        invariant
            k <= cs.len(),
            out@ == start + cs@.take(k as int),
        decreases cs.len() - k,
    {
        push_char(out, cs[k]);
        k += 1;
        assert(out@ =~= start + cs@.take(k as int));
    }
    assert(cs@.take(cs.len() as int) =~= cs@);
}

/// Appends five dashes to `out`.
fn push_dashes(out: &mut String)
    ensures
        final(out)@ == old(out)@ + dashes(),
{
    let ghost start = out@;
    push_char(out, '-');
    push_char(out, '-');
    push_char(out, '-');
    push_char(out, '-');
    push_char(out, '-');
    assert(out@ =~= start + dashes());
}

/// The body of the PEM text `pem`: its lines that do not start with five
/// dashes, without whitespace.
pub fn pem_body_of(pem: &str) -> (r: String)
    ensures
        r@ == pem_body(pem@),
{
    let cs = chars_of(pem);
    let n = cs.len();
    let mut body = String::new();
    let mut i: usize = 0;
    assert(cs@.skip(0) =~= cs@);
    while i < n
        invariant
            i <= n,
            n == cs@.len(),
            cs@ == pem@,
            pem_body(cs@) == body@ + pem_body(cs@.skip(i as int)),
        decreases n - i,
    {
        let mut j = i;
        while j < n && cs[j] != '\n'
            invariant
                i <= j <= n,
                n == cs@.len(),
                forall|k: int| i <= k < j ==> #[trigger] cs@[k] != '\n',
            decreases n - j,
        {
            j += 1;
        }
        let ghost s = cs@.skip(i as int);
        let ghost line = s.take((j - i) as int);
        proof {
            assert forall|k: int| 0 <= k < j - i implies #[trigger] s[k] != '\n' by {
                assert(s[k] == cs@[i + k]);
            }
            if j < n {
                assert(s[j - i] == cs@[j as int]);
            }
            lemma_line_end(s, (j - i) as nat);
            assert(line =~= cs@.subrange(i as int, j as int));
        }
        let ghost body0 = body@;
        let armor = j - i >= 5 && cs[i] == '-' && cs[i + 1] == '-' && cs[i + 2] == '-' && cs[i + 3]
            == '-' && cs[i + 4] == '-';
        assert(armor == is_armor_line(line));
        if !armor {
            let mut k = i;
            assert(cs@.subrange(i as int, i as int) =~= Seq::<char>::empty());
            while k < j
                invariant
                    i <= k <= j,
                    j <= n,
                    n == cs@.len(),
                    body@ == body0 + strip_whitespace(cs@.subrange(i as int, k as int)),
                decreases j - k,
            {
                let c = cs[k];
                let ghost sub = cs@.subrange(i as int, k + 1);
                proof {
                    assert(sub.drop_last() =~= cs@.subrange(i as int, k as int));
                    assert(sub.last() == c);
                }
                if !is_whitespace_exec(c) {
                    push_char(&mut body, c);
                    assert(body@ =~= body0 + strip_whitespace(sub));
                }
                k += 1;
            }
        }
        assert(body@ == body0 + kept_line(line));
        if j < n {
            assert(s.skip((j - i) + 1) =~= cs@.skip(j + 1));
            assert(pem_body(s) == kept_line(line) + pem_body(cs@.skip(j + 1)));
            assert(body0 + (kept_line(line) + pem_body(cs@.skip(j + 1))) =~= body@ + pem_body(
                cs@.skip(j + 1),
            ));
            i = j + 1;
        } else {
            assert(line =~= s);
            assert(cs@.skip(n as int) =~= Seq::<char>::empty());
            assert(body0 + kept_line(line) =~= body@ + pem_body(cs@.skip(n as int)));
            i = n;
        }
    }
    assert(cs@.skip(n as int) =~= Seq::<char>::empty());
    assert(body@ + Seq::<char>::empty() =~= body@);
    body
}

/// The PEM text of the base64 text `text` with label `label`.
pub fn pem_text_of(text: &str, label: &str) -> (r: String)
    ensures
        r@ == pem_text(text@, label@),
{
    let tc = chars_of(text);
    let lc = chars_of(label);
    let mut out = String::new();
    push_dashes(&mut out);
    push_char(&mut out, 'B');
    push_char(&mut out, 'E');
    push_char(&mut out, 'G');
    push_char(&mut out, 'I');
    push_char(&mut out, 'N');
    push_char(&mut out, ' ');
    push_all(&mut out, &lc);
    push_dashes(&mut out);
    assert(out@ =~= begin_line(label@));
    push_char(&mut out, '\n');
    let ghost pre = out@;
    let mut k: usize = 0;
    assert(tc@.take(0) =~= Seq::<char>::empty());
    while k < tc.len()
        invariant
            k <= tc.len(),
            out@ == pre + wrap_lines(tc@.take(k as int)),
        decreases tc.len() - k,
    {
        let ghost tk1 = tc@.take(k + 1);
        proof {
            assert(tk1.drop_last() =~= tc@.take(k as int));
            assert(tk1.last() == tc@[k as int]);
        }
        if k > 0 && k % 64 == 0 {
            push_char(&mut out, '\n');
        }
        push_char(&mut out, tc[k]);
        k += 1;
        assert(out@ =~= pre + wrap_lines(tk1));
    }
    assert(tc@.take(tc.len() as int) =~= tc@);
    let ghost mid = out@;
    push_char(&mut out, '\n');
    push_dashes(&mut out);
    push_char(&mut out, 'E');
    push_char(&mut out, 'N');
    push_char(&mut out, 'D');
    push_char(&mut out, ' ');
    push_all(&mut out, &lc);
    push_dashes(&mut out);
    assert(out@ =~= mid + seq!['\n'] + end_line(label@));
    assert(out@ =~= pem_text(text@, label@));
    out
}

} // verus!
