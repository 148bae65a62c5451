use vstd::prelude::*;

verus! {

/// Printable ASCII: the characters that carry no styling or control meaning,
/// and that an ANSI-escape stripper passes through unchanged.
pub open spec fn is_plain_char(c: char) -> bool {
    0x20 <= c as u32 && c as u32 <= 0x7e
}

pub open spec fn plain_seq(s: Seq<char>) -> bool {
    forall|i: int| 0 <= i < s.len() ==> is_plain_char(#[trigger] s[i])
}

/// ASCII whitespace, as `char::is_whitespace` classifies ASCII characters.
pub open spec fn is_space_char(c: char) -> bool {
    c as u32 == 0x20 || (0x09 <= c as u32 && c as u32 <= 0x0d)
}

/// A line is blank when it holds nothing but whitespace.
pub open spec fn is_blank(l: Seq<char>) -> bool {
    forall|i: int| 0 <= i < l.len() ==> is_space_char(#[trigger] l[i])
}

/// The pieces of `s` between newline characters. A trailing newline yields a
/// final empty piece; the result is never empty.
pub open spec fn split_nl(s: Seq<char>) -> Seq<Seq<char>>
    decreases s.len(),
{
    if s.len() == 0 {
        seq![Seq::<char>::empty()]
    } else if s.last() == '\n' {
        split_nl(s.drop_last()).push(Seq::<char>::empty())
    } else {
        let r = split_nl(s.drop_last());
        r.update(r.len() - 1, r.last().push(s.last()))
    }
}

/// Removes one final carriage return, as splitting `\r\n`-terminated text on
/// `\n` leaves one behind.
pub open spec fn drop_final_cr(l: Seq<char>) -> Seq<char> {
    if l.len() > 0 && l.last() == '\r' {
        l.drop_last()
    } else {
        l
    }
}

/// The non-blank pieces of a piece list, each without its final carriage
/// return.
pub open spec fn kept_pieces(ps: Seq<Seq<char>>) -> Seq<Seq<char>>
    decreases ps.len(),
{
    if ps.len() == 0 {
        Seq::<Seq<char>>::empty()
    } else if is_blank(ps.last()) {
        kept_pieces(ps.drop_last())
    } else {
        kept_pieces(ps.drop_last()).push(drop_final_cr(ps.last()))
    }
}

/// The lines of `text` that a write keeps: split on newlines, blank lines
/// dropped, a final carriage return removed from each kept line.
pub open spec fn kept_lines(text: Seq<char>) -> Seq<Seq<char>> {
    kept_pieces(split_nl(text))
}

/// `l` without its trailing whitespace.
pub open spec fn trim_end(l: Seq<char>) -> Seq<char>
    decreases l.len(),
{
    if l.len() > 0 && is_space_char(l.last()) {
        trim_end(l.drop_last())
    } else {
        l
    }
}

pub open spec fn repeat_char(c: char, n: nat) -> Seq<char>
    decreases n,
{
    if n == 0 {
        Seq::<char>::empty()
    } else {
        repeat_char(c, (n - 1) as nat).push(c)
    }
}

/// `s` padded on the right with spaces to at least `w` characters.
pub open spec fn pad_to(s: Seq<char>, w: nat) -> Seq<char> {
    if s.len() < w {
        s + repeat_char(' ', (w - s.len()) as nat)
    } else {
        s
    }
}

/// Relies on `String::push`: appends one character to the string.
#[verifier::external_body]
fn push_char(s: &mut String, c: char)
    ensures
        final(s)@ == old(s)@.push(c),
{
    s.push(c);
}

/// Splits `text` into its pieces between newline characters.
pub fn split_lines(text: &str) -> (r: Vec<String>)
    ensures
        r@.map_values(|p: String| p@) == split_nl(text@),
{
    let n = text.unicode_len();
    let mut done: Vec<String> = Vec::new();
    let mut cur: String = String::new();
    let mut i: usize = 0;
    while i < n
        invariant
            0 <= i <= n,
            n == text@.len(),
            done@.map_values(|p: String| p@).push(cur@) == split_nl(text@.subrange(0, i as int)),
        decreases n - i,
    {
        let ghost prefix = text@.subrange(0, i as int);
        let c = text.get_char(i);
        proof {
            assert(text@.subrange(0, i + 1).drop_last() =~= prefix);
            assert(text@.subrange(0, i + 1).last() == c);
        }
        if c == '\n' {
            done.push(cur);
            cur = String::new();
            proof {
                assert(done@.map_values(|p: String| p@).push(cur@)
                    =~= split_nl(text@.subrange(0, i + 1)));
            }
        } else {
            push_char(&mut cur, c);
            proof {
                let prev = split_nl(prefix);
                assert(done@.map_values(|p: String| p@).push(cur@)
                    =~= prev.update(prev.len() - 1, prev.last().push(c)));
            }
        }
        i = i + 1;
    }
    proof {
        assert(text@.subrange(0, n as int) =~= text@);
    }
    done.push(cur);
    done
}

/// Says whether `l` is nothing but whitespace.
pub fn is_blank_line(l: &str) -> (b: bool)
    ensures
        b == is_blank(l@),
{
    let n = l.unicode_len();
    let mut i: usize = 0;
    while i < n
        invariant
            0 <= i <= n,
            n == l@.len(),
            forall|j: int| 0 <= j < i ==> is_space_char(#[trigger] l@[j]),
        decreases n - i,
    {
        let c = l.get_char(i);
        let u = c as u32;
        if !(u == 0x20 || (0x09 <= u && u <= 0x0d)) {
            return false;
        }
        i = i + 1;
    }
    true
}

proof fn lemma_trim_end_is_prefix(l: Seq<char>, k: int)
    requires
        0 <= k <= l.len(),
        forall|i: int| k <= i < l.len() ==> is_space_char(#[trigger] l[i]),
        k == 0 || !is_space_char(l[k - 1]),
    ensures
        trim_end(l) == l.subrange(0, k),
    decreases l.len(),
{
    if k == l.len() {
        assert(trim_end(l) =~= l.subrange(0, k));
    } else {
        assert(is_space_char(l.last()));
        let d = l.drop_last();
        assert(forall|i: int| k <= i < d.len() ==> is_space_char(#[trigger] d[i]));
        lemma_trim_end_is_prefix(d, k);
        assert(d.subrange(0, k) =~= l.subrange(0, k));
    }
}

/// `l` with its trailing whitespace removed.
pub fn trim_end_line(l: &str) -> (r: String)
    ensures
        r@ == trim_end(l@),
{
    let n = l.unicode_len();
    let mut k: usize = n;
    loop
        invariant
            0 <= k <= n,
            n == l@.len(),
            forall|i: int| k <= i < n ==> is_space_char(#[trigger] l@[i]),
        ensures
            0 <= k <= n,
            n == l@.len(),
            forall|i: int| k <= i < n ==> is_space_char(#[trigger] l@[i]),
            k == 0 || !is_space_char(l@[k - 1]),
        decreases k,
    {
        if k == 0 {
            break;
        }
        let c = l.get_char(k - 1);
        let u = c as u32;
        if u == 0x20 || (0x09 <= u && u <= 0x0d) {
            k = k - 1;
        } else {
            break;
        }
    }
    proof {
        lemma_trim_end_is_prefix(l@, k as int);
    }
    l.substring_char(0, k).to_owned()
}

/// `l` without one final carriage return, if it has one.
pub fn drop_final_cr_line(l: &str) -> (r: String)
    ensures
        r@ == drop_final_cr(l@),
{
    let n = l.unicode_len();
    if n > 0 && l.get_char(n - 1) == '\r' {
        let r = l.substring_char(0, n - 1).to_owned();
        proof {
            assert(r@ =~= l@.drop_last());
        }
        r
    } else {
        l.to_owned()
    }
}

/// The lines of `text` that a write keeps: split on newlines, blank lines
/// dropped, a final carriage return removed from each kept line.
pub fn kept_lines_of(text: &str) -> (r: Vec<String>)
    ensures
        r@.map_values(|p: String| p@) == kept_lines(text@),
{
    let pieces = split_lines(text);
    let ghost pviews = pieces@.map_values(|p: String| p@);
    let mut r: Vec<String> = Vec::new();
    let mut i: usize = 0;
    while i < pieces.len()
        invariant
            0 <= i <= pieces.len(),
            pviews == pieces@.map_values(|p: String| p@),
            pviews == split_nl(text@),
            r@.map_values(|p: String| p@) == kept_pieces(pviews.subrange(0, i as int)),
        decreases pieces.len() - i,
    {
        proof {
            assert(pviews.subrange(0, i + 1).drop_last() =~= pviews.subrange(0, i as int));
            assert(pviews.subrange(0, i + 1).last() == pviews[i as int]);
        }
        if !is_blank_line(pieces[i].as_str()) {
            let kept = drop_final_cr_line(pieces[i].as_str());
            r.push(kept);
        }
        i = i + 1;
    }
    proof {
        assert(pviews.subrange(0, pieces@.len() as int) =~= pviews);
    }
    r
}

/// `s` padded on the right with spaces to at least `w` characters.
pub fn pad_line_to(s: &str, w: usize) -> (r: String)
    ensures
        r@ == pad_to(s@, w as nat),
{
    let n = s.unicode_len();
    let mut r = s.to_owned();
    let mut j: usize = n;
    while j < w
        invariant
            n == s@.len(),
            n <= j,
            j <= w || j == n,
            r@ == s@ + repeat_char(' ', (j - n) as nat),
        decreases w - j,
    {
        push_char(&mut r, ' ');
        j = j + 1;
    }
    proof {
        if n >= w {
            assert(r@ =~= pad_to(s@, w as nat));
        }
    }
    r
}

/// A row of `n` copies of the character `c`.
pub fn char_row(c: char, n: usize) -> (r: String)
    ensures
        r@ == repeat_char(c, n as nat),
{
    let mut r = String::new();
    let mut j: usize = 0;
    while j < n
        invariant
            0 <= j <= n,
            r@ == repeat_char(c, j as nat),
        decreases n - j,
    {
        push_char(&mut r, c);
        j = j + 1;
    }
    r
}

/// A padded line stays plain: padding adds only spaces.
pub proof fn lemma_pad_plain(s: Seq<char>, w: nat)
    requires
        plain_seq(s),
    ensures
        plain_seq(pad_to(s, w)),
{
    lemma_repeat_plain(' ', if s.len() < w { (w - s.len()) as nat } else { 0 });
}

/// A row of `n` copies of `c` has length `n` and holds `c` everywhere.
pub proof fn lemma_repeat_elems(c: char, n: nat)
    ensures
        repeat_char(c, n).len() == n,
        forall|i: int| 0 <= i < n ==> repeat_char(c, n)[i] == c,
    decreases n,
{
    if n > 0 {
        lemma_repeat_elems(c, (n - 1) as nat);
    }
}

pub proof fn lemma_repeat_plain(c: char, n: nat)
    requires
        is_plain_char(c),
    ensures
        plain_seq(repeat_char(c, n)),
    decreases n,
{
    if n > 0 {
        lemma_repeat_plain(c, (n - 1) as nat);
    }
}

/// Concatenation keeps plainness.
pub proof fn lemma_plain_concat(a: Seq<char>, b: Seq<char>)
    requires
        plain_seq(a),
        plain_seq(b),
    ensures
        plain_seq(a + b),
{
    assert forall|i: int| 0 <= i < (a + b).len() implies is_plain_char(#[trigger] (a + b)[i]) by {
        if i < a.len() {
            assert((a + b)[i] == a[i]);
        } else {
            assert((a + b)[i] == b[i - a.len()]);
        }
    }
}

} // verus!
