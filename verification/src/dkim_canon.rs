//! Message structure and the "relaxed" canonicalization of RFC 6376
//! (sections 3.4.2 and 3.4.4), over the raw bytes of a message.
//!
//! A message is a header section and a body separated by the first empty
//! line. Lines end with CRLF; a header field is a line that does not start
//! with whitespace, together with the continuation lines that follow it.

use vstd::prelude::*;

verus! {

/// Space or horizontal tab.
pub open spec fn is_wsp(b: u8) -> bool {
    b == 32 || b == 9
}

/// The byte sequences of a vector of byte vectors.
pub open spec fn byte_rows(rows: Seq<Vec<u8>>) -> Seq<Seq<u8>> {
    rows.map_values(|r: Vec<u8>| r@)
}

/// Position of the first CRLF in `s` at or after `from`.
pub open spec fn find_crlf(s: Seq<u8>, from: int) -> Option<int>
    decreases s.len() - from,
{
    if from < 0 || from + 2 > s.len() {
        None
    } else if s[from] == 13 && s[from + 1] == 10 {
        Some(from)
    } else {
        find_crlf(s, from + 1)
    }
}

/// A CRLF found by [`find_crlf`] lies inside `s`, at or after `from`.
pub proof fn lemma_find_crlf_bounds(s: Seq<u8>, from: int)
    ensures
        find_crlf(s, from) matches Some(i) ==> from <= i && i + 2 <= s.len() && s[i] == 13 && s[i
            + 1] == 10,
    decreases s.len() - from,
{
    if from >= 0 && from + 2 <= s.len() && !(s[from] == 13 && s[from + 1] == 10) {
        lemma_find_crlf_bounds(s, from + 1);
    }
}

/// Searching a suffix of `s` is searching `s` from further on.
pub proof fn lemma_find_crlf_skip(s: Seq<u8>, p: int, k: int)
    requires
        0 <= p <= s.len(),
        0 <= k,
    ensures
        find_crlf(s.skip(p), k) == (match find_crlf(s, p + k) {
            Some(i) => Some(i - p),
            None => None,
        }),
    decreases s.len() - p - k,
{
    if p + k + 2 <= s.len() {
        assert(s.skip(p)[k] == s[p + k]);
        assert(s.skip(p)[k + 1] == s[p + k + 1]);
        lemma_find_crlf_skip(s, p, k + 1);
    }
}

/// The CRLF-terminated lines of `s`; a last line without CRLF counts when
/// it is not empty.
pub open spec fn crlf_lines(s: Seq<u8>) -> Seq<Seq<u8>>
    decreases s.len(),
{
    match find_crlf(s, 0) {
        None => if s.len() == 0 {
            Seq::empty()
        } else {
            seq![s]
        },
        Some(i) => {
            proof {
                lemma_find_crlf_bounds(s, 0);
            }
            seq![s.take(i)] + crlf_lines(s.skip(i + 2))
        },
    }
}

/// Position of the first CRLF in `s` at or after `from`.
pub fn find_crlf_from(s: &[u8], from: usize) -> (r: Option<usize>)
    ensures
        r matches Some(i) ==> find_crlf(s@, from as int) == Some(i as int),
        r is None ==> find_crlf(s@, from as int) is None,
{
    let len = s.len();
    if from >= len {
        return None;
    }
    let mut j = from;
    while j + 1 < len
        invariant
            len == s@.len(),
            from <= j < len,
            find_crlf(s@, from as int) == find_crlf(s@, j as int),
        decreases len - j,
    {
        if s[j] == 13 && s[j + 1] == 10 {
            return Some(j);
        }
        j = j + 1;
    }
    None
}

/// The bytes `s[from..to]` as a new vector.
pub fn copy_range(s: &[u8], from: usize, to: usize) -> (r: Vec<u8>)
    requires
        from <= to <= s@.len(),
    ensures
        r@ == s@.subrange(from as int, to as int),
{
    let mut r: Vec<u8> = Vec::new();
    let mut j = from;
    while j < to
        invariant
            from <= j <= to,
            to <= s@.len(),
            r@ == s@.subrange(from as int, j as int),
        decreases to - j,
    {
        r.push(s[j]);
        assert(s@.subrange(from as int, j + 1) =~= s@.subrange(from as int, j as int).push(s@[j as int]));
        j = j + 1;
    }
    r
}

/// Splits `s` into its CRLF-terminated lines (see [`crlf_lines`]).
pub fn split_crlf_lines(s: &[u8]) -> (lines: Vec<Vec<u8>>)
    ensures
        byte_rows(lines@) == crlf_lines(s@),
{
    let len = s.len();
    let mut lines: Vec<Vec<u8>> = Vec::new();
    let mut pos: usize = 0;
    assert(s@.skip(0) =~= s@);
    assert(byte_rows(lines@) + crlf_lines(s@) =~= crlf_lines(s@));
    loop
        invariant
            len == s@.len(),
            pos <= len,
            byte_rows(lines@) + crlf_lines(s@.skip(pos as int)) == crlf_lines(s@),
        decreases len - pos,
    {
        let ghost rest = s@.skip(pos as int);
        proof {
            lemma_find_crlf_skip(s@, pos as int, 0);
            lemma_find_crlf_bounds(s@, pos as int);
        }
        match find_crlf_from(s, pos) {
            Some(i) => {
                let line = copy_range(s, pos, i);
                let ghost old_rows = byte_rows(lines@);
                lines.push(line);
                assert(byte_rows(lines@) =~= old_rows.push(line@));
                assert(rest.take(i - pos) =~= s@.subrange(pos as int, i as int));
                assert(rest.skip(i - pos + 2) =~= s@.skip(i + 2));
                assert(crlf_lines(rest) == seq![rest.take(i - pos)] + crlf_lines(rest.skip(
                    i - pos + 2,
                )));
                assert(byte_rows(lines@) + crlf_lines(s@.skip(i + 2)) =~= old_rows + crlf_lines(
                    rest,
                ));
                pos = i + 2;
            },
            None => {
                if pos < len {
                    let line = copy_range(s, pos, len);
                    let ghost old_rows = byte_rows(lines@);
                    lines.push(line);
                    assert(byte_rows(lines@) =~= old_rows.push(line@));
                    assert(rest =~= s@.subrange(pos as int, len as int));
                    assert(byte_rows(lines@) =~= old_rows + crlf_lines(rest));
                } else {
                    assert(rest =~= Seq::<u8>::empty());
                    assert(byte_rows(lines@) =~= byte_rows(lines@) + crlf_lines(rest));
                }
                return lines;
            },
        }
    }
}


/// Appends `src` to `dst`.
pub fn append_bytes(dst: &mut Vec<u8>, src: &[u8])
    ensures
        final(dst)@ == old(dst)@ + src@,
{
    let len = src.len();
    let mut j: usize = 0;
    while j < len
        invariant
            len == src@.len(),
            j <= len,
            dst@ == old(dst)@ + src@.take(j as int),
        decreases len - j,
    {
        dst.push(src[j]);
        assert(src@.take(j + 1) =~= src@.take(j as int).push(src@[j as int]));
        j = j + 1;
    }
    assert(src@.take(len as int) =~= src@);
}

/// Whether two byte strings are equal.
pub fn bytes_equal(a: &[u8], b: &[u8]) -> (r: bool)
    ensures
        r == (a@ == b@),
{
    if a.len() != b.len() {
        return false;
    }
    let len = a.len();
    let mut j: usize = 0;
    while j < len
        invariant
            len == a@.len(),
            len == b@.len(),
            j <= len,
            a@.take(j as int) == b@.take(j as int),
        decreases len - j,
    {
        if a[j] != b[j] {
            assert(a@[j as int] != b@[j as int]);
            return false;
        }
        assert(a@.take(j + 1) =~= a@.take(j as int).push(a@[j as int]));
        assert(b@.take(j + 1) =~= b@.take(j as int).push(b@[j as int]));
        j = j + 1;
    }
    assert(a@ =~= a@.take(len as int));
    assert(b@ =~= b@.take(len as int));
    true
}

/// Position of the first empty line separator (CRLF CRLF) in `s` at or
/// after `from`.
pub open spec fn find_blank_line(s: Seq<u8>, from: int) -> Option<int>
    decreases s.len() - from,
{
    if from < 0 || from + 4 > s.len() {
        None
    } else if s[from] == 13 && s[from + 1] == 10 && s[from + 2] == 13 && s[from + 3] == 10 {
        Some(from)
    } else {
        find_blank_line(s, from + 1)
    }
}

/// A separator found by [`find_blank_line`] lies inside `s`.
pub proof fn lemma_find_blank_line_bounds(s: Seq<u8>, from: int)
    ensures
        find_blank_line(s, from) matches Some(i) ==> from <= i && i + 4 <= s.len(),
    decreases s.len() - from,
{
    if from >= 0 && from + 4 <= s.len() && !(s[from] == 13 && s[from + 1] == 10 && s[from + 2]
        == 13 && s[from + 3] == 10) {
        lemma_find_blank_line_bounds(s, from + 1);
    }
}

/// The message starts with an empty line: it has no header fields.
pub open spec fn starts_with_crlf(m: Seq<u8>) -> bool {
    m.len() >= 2 && m[0] == 13 && m[1] == 10
}

/// The header section of a message: everything before the first empty
/// line, with the CRLF that ends the last field; the whole message when it
/// has no empty line.
pub open spec fn header_section(m: Seq<u8>) -> Seq<u8> {
    if starts_with_crlf(m) {
        Seq::empty()
    } else {
        match find_blank_line(m, 0) {
            Some(i) => m.take(i + 2),
            None => m,
        }
    }
}

/// The body of a message: everything after the first empty line; empty
/// when the message has no empty line.
pub open spec fn body_section(m: Seq<u8>) -> Seq<u8> {
    if starts_with_crlf(m) {
        m.skip(2)
    } else {
        match find_blank_line(m, 0) {
            Some(i) => m.skip(i + 4),
            None => Seq::empty(),
        }
    }
}

/// Splits a message into its header section and its body.
pub fn split_message(m: &[u8]) -> (parts: (Vec<u8>, Vec<u8>))
    ensures
        parts.0@ == header_section(m@),
        parts.1@ == body_section(m@),
{
    let len = m.len();
    if len >= 2 && m[0] == 13 && m[1] == 10 {
        let body = copy_range(m, 2, len);
        assert(m@.subrange(2, len as int) =~= m@.skip(2));
        return (Vec::new(), body);
    }
    assert(!starts_with_crlf(m@));
    let mut j: usize = 0;
    while len - j >= 4
        invariant
            len == m@.len(),
            j <= len,
            find_blank_line(m@, 0) == find_blank_line(m@, j as int),
            !starts_with_crlf(m@),
        decreases len - j,
    {
        if m[j] == 13 && m[j + 1] == 10 && m[j + 2] == 13 && m[j + 3] == 10 {
            let head = copy_range(m, 0, j + 2);
            let body = copy_range(m, j + 4, len);
            assert(find_blank_line(m@, j as int) == Some(j as int));
            assert(m@.subrange(0, j + 2) =~= m@.take(j + 2));
            assert(m@.subrange(j + 4, len as int) =~= m@.skip(j + 4));
            return (head, body);
        }
        j = j + 1;
    }
    assert(m@.subrange(0, len as int) =~= m@);
    (copy_range(m, 0, len), Vec::new())
}

/// The header fields of a header section: each line that does not start
/// with whitespace opens a field; a line that does is joined, with its
/// CRLF, to the field before it. The CRLF that ends a field is not part of
/// it.
pub open spec fn group_fields(lines: Seq<Seq<u8>>) -> Seq<Seq<u8>>
    decreases lines.len(),
{
    if lines.len() == 0 {
        Seq::empty()
    } else {
        let fields = group_fields(lines.drop_last());
        let line = lines.last();
        if line.len() > 0 && is_wsp(line[0]) && fields.len() > 0 {
            fields.update(fields.len() - 1, fields.last() + seq![13u8, 10u8] + line)
        } else {
            fields.push(line)
        }
    }
}

/// The header fields of a message.
pub open spec fn header_fields(m: Seq<u8>) -> Seq<Seq<u8>> {
    group_fields(crlf_lines(header_section(m)))
}

/// Groups header lines into fields (see [`group_fields`]).
pub fn group_header_lines(lines: Vec<Vec<u8>>) -> (fields: Vec<Vec<u8>>)
    ensures
        byte_rows(fields@) == group_fields(byte_rows(lines@)),
{
    let n = lines.len();
    let mut fields: Vec<Vec<u8>> = Vec::new();
    let mut i: usize = 0;
    let ghost rows = byte_rows(lines@);
    assert(rows.take(0) =~= Seq::<Seq<u8>>::empty());
    while i < n
        invariant
            n == lines@.len(),
            rows == byte_rows(lines@),
            i <= n,
            byte_rows(fields@) == group_fields(rows.take(i as int)),
        decreases n - i,
    {
        let line = &lines[i];
        assert(rows.take(i + 1).drop_last() =~= rows.take(i as int));
        assert(rows.take(i + 1).last() == line@);
        let continues = line.len() > 0 && (line[0] == 32 || line[0] == 9);
        if continues && fields.len() > 0 {
            let ghost before = byte_rows(fields@);
            let ghost old_vec = fields@;
            let mut last = fields.pop().unwrap();
            assert(last@ == before.last());
            last.push(13);
            last.push(10);
            append_bytes(&mut last, line.as_slice());
            let ghost grown = last@;
            assert(grown =~= before.last() + seq![13u8, 10u8] + line@);
            fields.push(last);
            assert(fields@ =~= old_vec.drop_last().push(last));
            assert(byte_rows(fields@) =~= before.update(before.len() - 1, before.last() + seq![
                13u8,
                10u8,
            ] + line@));
        } else {
            let ghost before = byte_rows(fields@);
            fields.push(copy_range(line.as_slice(), 0, line.len()));
            assert(line@.subrange(0, line@.len() as int) =~= line@);
            assert(byte_rows(fields@) =~= before.push(line@));
        }
        i = i + 1;
    }
    assert(rows.take(n as int) =~= rows);
    fields
}


/// A line with every run of whitespace reduced to one space and the
/// whitespace at its end removed (RFC 6376, 3.4.4).
pub open spec fn relaxed_line(s: Seq<u8>) -> Seq<u8>
    decreases s.len(),
{
    if s.len() == 0 {
        Seq::empty()
    } else {
        let r = relaxed_line(s.drop_last());
        let c = s.last();
        if is_wsp(c) {
            r
        } else if s.len() >= 2 && is_wsp(s[s.len() - 2]) {
            r + seq![32u8, c]
        } else {
            r.push(c)
        }
    }
}

/// Reduces whitespace runs of a line to one space and drops trailing
/// whitespace (see [`relaxed_line`]).
pub fn relax_line(s: &[u8]) -> (r: Vec<u8>)
    ensures
        r@ == relaxed_line(s@),
{
    let len = s.len();
    let mut r: Vec<u8> = Vec::new();
    let mut i: usize = 0;
    assert(s@.take(0) =~= Seq::<u8>::empty());
    while i < len
        invariant
            len == s@.len(),
            i <= len,
            r@ == relaxed_line(s@.take(i as int)),
        decreases len - i,
    {
        let c = s[i];
        let ghost t = s@.take(i + 1);
        assert(t.drop_last() =~= s@.take(i as int));
        assert(t.last() == c);
        if c == 32 || c == 9 {
        } else if i >= 1 && (s[i - 1] == 32 || s[i - 1] == 9) {
            assert(t[t.len() - 2] == s@[i - 1]);
            r.push(32);
            r.push(c);
            assert(r@ =~= relaxed_line(t.drop_last()) + seq![32u8, c]);
        } else {
            if i >= 1 {
                assert(t[t.len() - 2] == s@[i - 1]);
            }
            r.push(c);
        }
        i = i + 1;
    }
    assert(s@.take(len as int) =~= s@);
    r
}

/// The only whitespace of `t` is single spaces: no tab, no two spaces in
/// a row.
pub open spec fn single_spaced(t: Seq<u8>) -> bool {
    &&& forall|k: int| 0 <= k < t.len() ==> #[trigger] t[k] != 9
    &&& forall|k: int| 0 <= k < t.len() - 1 ==> !(#[trigger] t[k] == 32 && t[k + 1] == 32)
}

/// `t` without one space at its end.
pub open spec fn drop_final_space(t: Seq<u8>) -> Seq<u8> {
    if t.len() > 0 && t.last() == 32 {
        t.drop_last()
    } else {
        t
    }
}

/// A relaxed line is single-spaced and does not end with a space.
pub proof fn lemma_relaxed_line_shape(s: Seq<u8>)
    ensures
        single_spaced(relaxed_line(s)),
        relaxed_line(s).len() > 0 ==> relaxed_line(s).last() != 32,
    decreases s.len(),
{
    if s.len() > 0 {
        lemma_relaxed_line_shape(s.drop_last());
        let r = relaxed_line(s.drop_last());
        let c = s.last();
        if !is_wsp(c) {
            if s.len() >= 2 && is_wsp(s[s.len() - 2]) {
                let t = r + seq![32u8, c];
                assert forall|k: int| 0 <= k < t.len() - 1 implies !(#[trigger] t[k] == 32 && t[k
                    + 1] == 32) by {
                    if k < r.len() - 1 {
                        assert(t[k] == r[k] && t[k + 1] == r[k + 1]);
                    }
                }
                assert forall|k: int| 0 <= k < t.len() implies #[trigger] t[k] != 9 by {
                    if k < r.len() {
                        assert(t[k] == r[k]);
                    }
                }
            } else {
                let t = r.push(c);
                assert forall|k: int| 0 <= k < t.len() - 1 implies !(#[trigger] t[k] == 32 && t[k
                    + 1] == 32) by {
                    if k < r.len() - 1 {
                        assert(t[k] == r[k] && t[k + 1] == r[k + 1]);
                    }
                }
                assert forall|k: int| 0 <= k < t.len() implies #[trigger] t[k] != 9 by {
                    if k < r.len() {
                        assert(t[k] == r[k]);
                    }
                }
            }
        }
    }
}

/// Relaxing a single-spaced line only drops its final space.
pub proof fn lemma_relaxed_line_of_single_spaced(t: Seq<u8>)
    requires
        single_spaced(t),
    ensures
        relaxed_line(t) == drop_final_space(t),
    decreases t.len(),
{
    if t.len() > 0 {
        let p = t.drop_last();
        assert(single_spaced(p)) by {
            assert forall|k: int| 0 <= k < p.len() implies #[trigger] p[k] != 9 by {
                assert(p[k] == t[k]);
            }
            assert forall|k: int| 0 <= k < p.len() - 1 implies !(#[trigger] p[k] == 32 && p[k
                + 1] == 32) by {
                assert(p[k] == t[k] && p[k + 1] == t[k + 1]);
            }
        }
        lemma_relaxed_line_of_single_spaced(p);
        let c = t.last();
        assert(c == t[t.len() - 1]);
        if c == 32 {
            if p.len() > 0 {
                assert(p.last() == t[t.len() - 2]);
                assert(!(t[t.len() - 2] == 32 && t[t.len() - 1] == 32));
            }
        } else if t.len() >= 2 && is_wsp(t[t.len() - 2]) {
            assert(t[t.len() - 2] == 32);
            assert(p.last() == 32);
            assert(p.drop_last() + seq![32u8, c] =~= t);
        } else {
            if p.len() > 0 {
                assert(p.last() == t[t.len() - 2]);
            }
            assert(p.push(c) =~= t);
        }
    }
}

/// Relaxing a relaxed line changes nothing.
pub proof fn relaxed_line_is_idempotent(s: Seq<u8>)
    ensures
        relaxed_line(relaxed_line(s)) == relaxed_line(s),
{
    lemma_relaxed_line_shape(s);
    lemma_relaxed_line_of_single_spaced(relaxed_line(s));
}

/// `s` without its CR and LF bytes (unfolding of a header field value).
pub open spec fn strip_line_breaks(s: Seq<u8>) -> Seq<u8>
    decreases s.len(),
{
    if s.len() == 0 {
        Seq::empty()
    } else if s.last() == 13 || s.last() == 10 {
        strip_line_breaks(s.drop_last())
    } else {
        strip_line_breaks(s.drop_last()).push(s.last())
    }
}

/// Drops one space at the start of `s`.
pub open spec fn strip_leading_space(s: Seq<u8>) -> Seq<u8> {
    if s.len() > 0 && s[0] == 32 {
        s.skip(1)
    } else {
        s
    }
}

/// Relaxed canonical form of a header field value (RFC 6376, 3.4.2): the
/// value unfolded, every whitespace run reduced to one space, with no
/// whitespace at either end.
pub open spec fn relaxed_value(v: Seq<u8>) -> Seq<u8> {
    strip_leading_space(relaxed_line(strip_line_breaks(v)))
}

/// Relaxed canonical form of a header field value (see [`relaxed_value`]).
pub fn relax_value(v: &[u8]) -> (r: Vec<u8>)
    ensures
        r@ == relaxed_value(v@),
{
    let len = v.len();
    let mut unfolded: Vec<u8> = Vec::new();
    let mut i: usize = 0;
    assert(v@.take(0) =~= Seq::<u8>::empty());
    while i < len
        invariant
            len == v@.len(),
            i <= len,
            unfolded@ == strip_line_breaks(v@.take(i as int)),
        decreases len - i,
    {
        let c = v[i];
        assert(v@.take(i + 1).drop_last() =~= v@.take(i as int));
        if c != 13 && c != 10 {
            unfolded.push(c);
        }
        i = i + 1;
    }
    assert(v@.take(len as int) =~= v@);
    let relaxed = relax_line(unfolded.as_slice());
    if relaxed.len() > 0 && relaxed[0] == 32 {
        copy_range(relaxed.as_slice(), 1, relaxed.len())
    } else {
        relaxed
    }
}

/// `s` without the whitespace at its end.
pub open spec fn trim_end_wsp(s: Seq<u8>) -> Seq<u8>
    decreases s.len(),
{
    if s.len() > 0 && is_wsp(s.last()) {
        trim_end_wsp(s.drop_last())
    } else {
        s
    }
}

/// ASCII lower-case of a byte.
pub open spec fn lower_byte(b: u8) -> u8 {
    if 65 <= b <= 90 {
        (b + 32) as u8
    } else {
        b
    }
}

/// ASCII lower-case of a byte string; other bytes are unchanged.
pub open spec fn ascii_lower(s: Seq<u8>) -> Seq<u8> {
    s.map_values(|b: u8| lower_byte(b))
}

/// ASCII lower-case of a byte string.
pub fn to_ascii_lower(s: &[u8]) -> (r: Vec<u8>)
    ensures
        r@ == ascii_lower(s@),
{
    let len = s.len();
    let mut r: Vec<u8> = Vec::new();
    let mut i: usize = 0;
    while i < len
        invariant
            len == s@.len(),
            i <= len,
            r@ == ascii_lower(s@.take(i as int)),
        decreases len - i,
    {
        let b = s[i];
        let l = if 65 <= b && b <= 90 { b + 32 } else { b };
        r.push(l);
        assert(ascii_lower(s@.take(i + 1)) =~= ascii_lower(s@.take(i as int)).push(l));
        i = i + 1;
    }
    assert(s@.take(len as int) =~= s@);
    r
}

/// Position of the first byte `b` in `s` at or after `from`.
pub open spec fn find_byte(s: Seq<u8>, b: u8, from: int) -> Option<int>
    decreases s.len() - from,
{
    if from < 0 || from >= s.len() {
        None
    } else if s[from] == b {
        Some(from)
    } else {
        find_byte(s, b, from + 1)
    }
}

/// A byte found by [`find_byte`] is `b`, inside `s`, at or after `from`.
pub proof fn lemma_find_byte_bounds(s: Seq<u8>, b: u8, from: int)
    ensures
        find_byte(s, b, from) matches Some(i) ==> from <= i < s.len() && s[i] == b,
    decreases s.len() - from,
{
    if from >= 0 && from < s.len() && s[from] != b {
        lemma_find_byte_bounds(s, b, from + 1);
    }
}

/// Position of the first byte `b` in `s` at or after `from`.
pub fn find_byte_from(s: &[u8], b: u8, from: usize) -> (r: Option<usize>)
    ensures
        r matches Some(i) ==> find_byte(s@, b, from as int) == Some(i as int),
        r is None ==> find_byte(s@, b, from as int) is None,
{
    let len = s.len();
    let mut j = from;
    while j < len
        invariant
            len == s@.len(),
            from <= j,
            find_byte(s@, b, from as int) == find_byte(s@, b, j as int),
        decreases len - j,
    {
        if s[j] == b {
            return Some(j);
        }
        j = j + 1;
    }
    None
}

/// Position of the last byte `b` in `s`.
pub open spec fn rfind_byte(s: Seq<u8>, b: u8) -> Option<int>
    decreases s.len(),
{
    if s.len() == 0 {
        None
    } else if s.last() == b {
        Some(s.len() - 1)
    } else {
        rfind_byte(s.drop_last(), b)
    }
}

/// A byte found by [`rfind_byte`] is `b` and inside `s`.
pub proof fn lemma_rfind_byte_bounds(s: Seq<u8>, b: u8)
    ensures
        rfind_byte(s, b) matches Some(i) ==> 0 <= i < s.len() && s[i] == b,
    decreases s.len(),
{
    if s.len() > 0 && s.last() != b {
        lemma_rfind_byte_bounds(s.drop_last(), b);
        assert forall|k: int| 0 <= k < s.len() - 1 implies s.drop_last()[k] == s[k] by {}
    }
}

/// Position of the last byte `b` in `s`.
pub fn rfind_byte_in(s: &[u8], b: u8) -> (r: Option<usize>)
    ensures
        r matches Some(i) ==> rfind_byte(s@, b) == Some(i as int),
        r is None ==> rfind_byte(s@, b) is None,
{
    let mut k = s.len();
    assert(s@.take(k as int) =~= s@);
    while k > 0
        invariant
            k <= s@.len(),
            rfind_byte(s@, b) == rfind_byte(s@.take(k as int), b),
        decreases k,
    {
        assert(s@.take(k as int).last() == s@[k - 1]);
        assert(s@.take(k as int).drop_last() =~= s@.take(k - 1));
        if s[k - 1] == b {
            return Some(k - 1);
        }
        k = k - 1;
    }
    None
}


/// Length of `s` without the whitespace at its end.
pub fn trim_end_wsp_len(s: &[u8]) -> (n: usize)
    ensures
        n <= s@.len(),
        s@.take(n as int) == trim_end_wsp(s@),
{
    let mut k = s.len();
    assert(s@.take(k as int) =~= s@);
    while k > 0 && (s[k - 1] == 32 || s[k - 1] == 9)
        invariant
            k <= s@.len(),
            trim_end_wsp(s@) == trim_end_wsp(s@.take(k as int)),
        decreases k,
    {
        assert(s@.take(k as int).drop_last() =~= s@.take(k - 1));
        k = k - 1;
    }
    k
}

/// The name part of a header field: the bytes before its first colon (the
/// whole field when it has none).
pub open spec fn field_name(f: Seq<u8>) -> Seq<u8> {
    match find_byte(f, 58, 0) {
        Some(c) => f.take(c),
        None => f,
    }
}

/// The value part of a header field: the bytes after its first colon
/// (empty when it has none).
pub open spec fn field_value(f: Seq<u8>) -> Seq<u8> {
    match find_byte(f, 58, 0) {
        Some(c) => f.skip(c + 1),
        None => Seq::empty(),
    }
}

/// Relaxed form of a field name: without trailing whitespace, in ASCII
/// lower case.
pub open spec fn relaxed_name(f: Seq<u8>) -> Seq<u8> {
    ascii_lower(trim_end_wsp(field_name(f)))
}

/// The field has a colon and its relaxed name is `name`.
pub open spec fn field_has_name(f: Seq<u8>, name: Seq<u8>) -> bool {
    find_byte(f, 58, 0) is Some && relaxed_name(f) == name
}

/// Relaxed canonical form of a header field (RFC 6376, 3.4.2):
/// `name:value` with the relaxed name and value, ended by CRLF.
pub open spec fn canonical_field(f: Seq<u8>) -> Seq<u8> {
    relaxed_name(f) + seq![58u8] + relaxed_value(field_value(f)) + seq![13u8, 10u8]
}

/// The last field of `fields` named `name`.
pub open spec fn last_field_named(fields: Seq<Seq<u8>>, name: Seq<u8>) -> Option<Seq<u8>>
    decreases fields.len(),
{
    if fields.len() == 0 {
        None
    } else if field_has_name(fields.last(), name) {
        Some(fields.last())
    } else {
        last_field_named(fields.drop_last(), name)
    }
}

/// The relaxed name of a header field, and the position of its colon.
pub fn relaxed_field_name(f: &[u8]) -> (r: (Vec<u8>, Option<usize>))
    ensures
        r.0@ == relaxed_name(f@),
        r.1 matches Some(c) ==> find_byte(f@, 58, 0) == Some(c as int),
        r.1 is None ==> find_byte(f@, 58, 0) is None,
{
    let colon = find_byte_from(f, 58, 0);
    proof {
        lemma_find_byte_bounds(f@, 58, 0);
    }
    let end = match colon {
        Some(c) => c,
        None => f.len(),
    };
    let name = copy_range(f, 0, end);
    assert(name@ == field_name(f@));
    let n = trim_end_wsp_len(name.as_slice());
    let trimmed = copy_range(name.as_slice(), 0, n);
    assert(trimmed@ =~= name@.take(n as int));
    (to_ascii_lower(trimmed.as_slice()), colon)
}

/// Whether the header field has a colon and the relaxed name `name`.
pub fn has_field_name(f: &[u8], name: &[u8]) -> (r: bool)
    ensures
        r == field_has_name(f@, name@),
{
    let (relaxed, colon) = relaxed_field_name(f);
    colon.is_some() && bytes_equal(relaxed.as_slice(), name)
}

/// Relaxed canonical form of a header field (see [`canonical_field`]).
pub fn canonicalize_field(f: &[u8]) -> (r: Vec<u8>)
    ensures
        r@ == canonical_field(f@),
{
    let (mut out, colon) = relaxed_field_name(f);
    proof {
        lemma_find_byte_bounds(f@, 58, 0);
    }
    let value = match colon {
        Some(c) => {
            assert(find_byte(f@, 58, 0) == Some(c as int));
            assert(c < f@.len());
            let flen = f.len();
            assert(c < flen);
            copy_range(f, c + 1, f.len())
        },
        None => Vec::new(),
    };
    assert(value@ == field_value(f@));
    let relaxed = relax_value(value.as_slice());
    out.push(58);
    append_bytes(&mut out, relaxed.as_slice());
    out.push(13);
    out.push(10);
    assert(out@ =~= canonical_field(f@));
    out
}

/// Index of the last field of `fields` named `name`.
pub fn find_last_field(fields: &Vec<Vec<u8>>, name: &[u8]) -> (r: Option<usize>)
    ensures
        r matches Some(i) ==> i < fields@.len() && last_field_named(byte_rows(fields@), name@)
            == Some(fields@[i as int]@),
        r is None ==> last_field_named(byte_rows(fields@), name@) is None,
{
    let ghost rows = byte_rows(fields@);
    let mut k = fields.len();
    assert(rows.take(k as int) =~= rows);
    while k > 0
        invariant
            k <= fields@.len(),
            rows == byte_rows(fields@),
            last_field_named(rows, name@) == last_field_named(rows.take(k as int), name@),
        decreases k,
    {
        assert(rows.take(k as int).last() == fields@[k - 1]@);
        assert(rows.take(k as int).drop_last() =~= rows.take(k - 1));
        if has_field_name(fields[k - 1].as_slice(), name) {
            return Some(k - 1);
        }
        k = k - 1;
    }
    assert(rows.take(0) =~= Seq::<Seq<u8>>::empty());
    None
}


/// `lines` without the empty lines at its end.
pub open spec fn drop_trailing_empty(lines: Seq<Seq<u8>>) -> Seq<Seq<u8>>
    decreases lines.len(),
{
    if lines.len() > 0 && lines.last().len() == 0 {
        drop_trailing_empty(lines.drop_last())
    } else {
        lines
    }
}

/// Each line followed by CRLF, concatenated.
pub open spec fn join_crlf(lines: Seq<Seq<u8>>) -> Seq<u8>
    decreases lines.len(),
{
    if lines.len() == 0 {
        Seq::empty()
    } else {
        join_crlf(lines.drop_last()) + lines.last() + seq![13u8, 10u8]
    }
}

/// Relaxed canonical form of a message body (RFC 6376, 3.4.4): each line
/// relaxed (see [`relaxed_line`]), the empty lines at the end removed, and
/// every remaining line ended by CRLF; an empty body stays empty.
pub open spec fn canonical_body(body: Seq<u8>) -> Seq<u8> {
    join_crlf(drop_trailing_empty(crlf_lines(body).map_values(|l: Seq<u8>| relaxed_line(l))))
}

/// Relaxed canonical form of a message body (see [`canonical_body`]).
pub fn canonicalize_body(body: &[u8]) -> (r: Vec<u8>)
    ensures
        r@ == canonical_body(body@),
{
    let lines = split_crlf_lines(body);
    let ghost all = crlf_lines(body@).map_values(|l: Seq<u8>| relaxed_line(l));
    let n = lines.len();
    let mut relaxed: Vec<Vec<u8>> = Vec::new();
    let mut i: usize = 0;
    while i < n
        invariant
            n == lines@.len(),
            byte_rows(lines@) == crlf_lines(body@),
            all == crlf_lines(body@).map_values(|l: Seq<u8>| relaxed_line(l)),
            i <= n,
            byte_rows(relaxed@) =~= all.take(i as int),
        decreases n - i,
    {
        let ghost before = byte_rows(relaxed@);
        let line = relax_line(lines[i].as_slice());
        assert(lines@[i as int]@ == crlf_lines(body@)[i as int]);
        relaxed.push(line);
        assert(byte_rows(relaxed@) =~= before.push(line@));
        assert(all.take(i + 1) =~= all.take(i as int).push(all[i as int]));
        i = i + 1;
    }
    assert(all.take(n as int) =~= all);
    let ghost rows = byte_rows(relaxed@);
    let mut k = n;
    assert(rows.take(k as int) =~= rows);
    while k > 0 && relaxed[k - 1].len() == 0
        invariant
            k <= n,
            n == relaxed@.len(),
            rows == byte_rows(relaxed@),
            drop_trailing_empty(rows) == drop_trailing_empty(rows.take(k as int)),
        decreases k,
    {
        assert(rows.take(k as int).drop_last() =~= rows.take(k - 1));
        assert(rows.take(k as int).last() == relaxed@[k - 1]@);
        k = k - 1;
    }
    if k > 0 {
        assert(rows.take(k as int).last() == relaxed@[k - 1]@);
    }
    assert(drop_trailing_empty(rows.take(k as int)) == rows.take(k as int));
    let mut out: Vec<u8> = Vec::new();
    let mut j: usize = 0;
    assert(rows.take(0) =~= Seq::<Seq<u8>>::empty());
    while j < k
        invariant
            k <= n,
            n == relaxed@.len(),
            rows == byte_rows(relaxed@),
            j <= k,
            out@ == join_crlf(rows.take(j as int)),
        decreases k - j,
    {
        append_bytes(&mut out, relaxed[j].as_slice());
        out.push(13);
        out.push(10);
        assert(rows.take(j + 1).drop_last() =~= rows.take(j as int));
        assert(rows.take(j + 1).last() == relaxed@[j as int]@);
        assert(out@ =~= join_crlf(rows.take(j + 1)));
        j = j + 1;
    }
    out
}


/// `t` holds no CRLF pair.
pub open spec fn no_crlf(t: Seq<u8>) -> bool {
    forall|k: int| 0 <= k < t.len() - 1 ==> !(#[trigger] t[k] == 13 && t[k + 1] == 10)
}

/// No CRLF pair lies before the first one that [`find_crlf`] reports.
proof fn lemma_find_crlf_first(s: Seq<u8>, from: int, j: int)
    requires
        0 <= from <= j,
        j + 1 < s.len(),
        s[j] == 13 && s[j + 1] == 10,
    ensures
        find_crlf(s, from) matches Some(i) && i <= j,
    decreases j - from,
{
    if from < j && !(s[from] == 13 && s[from + 1] == 10) {
        lemma_find_crlf_first(s, from + 1, j);
    }
}

/// The lines of `s` hold no CRLF pair.
pub proof fn lemma_crlf_lines_no_crlf(s: Seq<u8>)
    ensures
        forall|k: int| 0 <= k < crlf_lines(s).len() ==> no_crlf(#[trigger] crlf_lines(s)[k]),
    decreases s.len(),
{
    lemma_find_crlf_bounds(s, 0);
    match find_crlf(s, 0) {
        None => {
            if s.len() > 0 {
                assert forall|j: int| 0 <= j < s.len() - 1 implies !(#[trigger] s[j] == 13 && s[j
                    + 1] == 10) by {
                    if s[j] == 13 && s[j + 1] == 10 {
                        lemma_find_crlf_first(s, 0, j);
                    }
                }
                assert(crlf_lines(s) == seq![s]);
            }
        },
        Some(i) => {
            let head = s.take(i);
            let rest = s.skip(i + 2);
            lemma_crlf_lines_no_crlf(rest);
            assert forall|j: int| 0 <= j < head.len() - 1 implies !(#[trigger] head[j] == 13
                && head[j + 1] == 10) by {
                if head[j] == 13 && head[j + 1] == 10 {
                    assert(s[j] == 13 && s[j + 1] == 10);
                    lemma_find_crlf_first(s, 0, j);
                }
            }
            let lines = crlf_lines(s);
            assert(lines == seq![head] + crlf_lines(rest));
            assert forall|k: int| 0 <= k < lines.len() implies no_crlf(#[trigger] lines[k]) by {
                if k > 0 {
                    assert(lines[k] == crlf_lines(rest)[k - 1]);
                }
            }
        },
    }
}

/// The last byte of a relaxed line that ends with a non-whitespace byte is
/// that byte.
proof fn lemma_relaxed_line_last(s: Seq<u8>)
    requires
        s.len() > 0,
        !is_wsp(s.last()),
    ensures
        relaxed_line(s).len() > 0,
        relaxed_line(s).last() == s.last(),
{
}

/// Relaxing a line creates no CRLF pair.
pub proof fn lemma_relaxed_line_no_crlf(s: Seq<u8>)
    requires
        no_crlf(s),
    ensures
        no_crlf(relaxed_line(s)),
    decreases s.len(),
{
    if s.len() > 0 {
        let p = s.drop_last();
        assert(no_crlf(p)) by {
            assert forall|k: int| 0 <= k < p.len() - 1 implies !(#[trigger] p[k] == 13 && p[k
                + 1] == 10) by {
                assert(p[k] == s[k] && p[k + 1] == s[k + 1]);
            }
        }
        lemma_relaxed_line_no_crlf(p);
        let r = relaxed_line(p);
        let c = s.last();
        if !is_wsp(c) {
            if s.len() >= 2 && is_wsp(s[s.len() - 2]) {
                let t = r + seq![32u8, c];
                assert forall|k: int| 0 <= k < t.len() - 1 implies !(#[trigger] t[k] == 13 && t[k
                    + 1] == 10) by {
                    if k < r.len() - 1 {
                        assert(t[k] == r[k] && t[k + 1] == r[k + 1]);
                    }
                }
            } else {
                let t = r.push(c);
                if p.len() > 0 {
                    assert(p.last() == s[s.len() - 2]);
                    lemma_relaxed_line_last(p);
                }
                assert forall|k: int| 0 <= k < t.len() - 1 implies !(#[trigger] t[k] == 13 && t[k
                    + 1] == 10) by {
                    if k < r.len() - 1 {
                        assert(t[k] == r[k] && t[k + 1] == r[k + 1]);
                    } else if t[k] == 13 && t[k + 1] == 10 {
                        assert(r.last() == 13);
                        assert(s[s.len() - 2] == 13 && s[s.len() - 1] == 10);
                    }
                }
            }
        }
    }
}

/// A line without a CRLF pair, followed by CRLF, is the first line.
proof fn lemma_crlf_lines_cons(line: Seq<u8>, rest: Seq<u8>)
    requires
        no_crlf(line),
    ensures
        crlf_lines(line + seq![13u8, 10u8] + rest) == seq![line] + crlf_lines(rest),
{
    let s = line + seq![13u8, 10u8] + rest;
    let n = line.len() as int;
    assert(s[n] == 13 && s[n + 1] == 10);
    lemma_find_crlf_first(s, 0, n);
    lemma_find_crlf_bounds(s, 0);
    let i = find_crlf(s, 0).unwrap();
    if i < n {
        if i == n - 1 {
            assert(s[i + 1] == 13);
        } else {
            assert(s[i] == line[i] && s[i + 1] == line[i + 1]);
        }
    }
    assert(i == n);
    assert(s.take(n) =~= line);
    assert(s.skip(n + 2) =~= rest);
}

/// [`join_crlf`] read from the front.
proof fn lemma_join_crlf_front(lines: Seq<Seq<u8>>)
    requires
        lines.len() > 0,
    ensures
        join_crlf(lines) == lines[0] + seq![13u8, 10u8] + join_crlf(lines.skip(1)),
    decreases lines.len(),
{
    if lines.len() == 1 {
        assert(lines.drop_last() =~= Seq::<Seq<u8>>::empty());
        assert(lines.skip(1) =~= Seq::<Seq<u8>>::empty());
        assert(join_crlf(lines.skip(1)) =~= Seq::<u8>::empty());
        assert(join_crlf(lines) =~= lines[0] + seq![13u8, 10u8] + join_crlf(lines.skip(1)));
    } else {
        lemma_join_crlf_front(lines.drop_last());
        assert(lines.drop_last().skip(1) =~= lines.skip(1).drop_last());
        assert(lines.skip(1).last() == lines.last());
        assert(join_crlf(lines) =~= lines[0] + seq![13u8, 10u8] + join_crlf(lines.skip(1)));
    }
}

/// Splitting joined lines that hold no CRLF pair gives the lines back.
pub proof fn lemma_crlf_lines_of_join(lines: Seq<Seq<u8>>)
    requires
        forall|k: int| 0 <= k < lines.len() ==> no_crlf(#[trigger] lines[k]),
    ensures
        crlf_lines(join_crlf(lines)) == lines,
    decreases lines.len(),
{
    if lines.len() == 0 {
        assert(crlf_lines(Seq::<u8>::empty()) =~= Seq::<Seq<u8>>::empty());
    } else {
        let tail = lines.skip(1);
        assert forall|k: int| 0 <= k < tail.len() implies no_crlf(#[trigger] tail[k]) by {
            assert(tail[k] == lines[k + 1]);
        }
        lemma_crlf_lines_of_join(tail);
        lemma_join_crlf_front(lines);
        assert(no_crlf(lines[0]));
        lemma_crlf_lines_cons(lines[0], join_crlf(tail));
        assert(seq![lines[0]] + tail =~= lines);
    }
}

/// Dropping trailing empty lines keeps a prefix whose last line, if any,
/// is not empty.
proof fn lemma_drop_trailing_empty_prefix(lines: Seq<Seq<u8>>)
    ensures
        drop_trailing_empty(lines).len() <= lines.len(),
        drop_trailing_empty(lines) == lines.take(drop_trailing_empty(lines).len() as int),
        drop_trailing_empty(lines).len() > 0 ==> drop_trailing_empty(lines).last().len() > 0,
    decreases lines.len(),
{
    if lines.len() > 0 && lines.last().len() == 0 {
        lemma_drop_trailing_empty_prefix(lines.drop_last());
        let d = drop_trailing_empty(lines.drop_last());
        assert(lines.drop_last().take(d.len() as int) =~= lines.take(d.len() as int));
    } else {
        assert(lines.take(lines.len() as int) =~= lines);
    }
}

/// The relaxed canonical form of a body is its own canonical form.
pub proof fn canonical_body_is_idempotent(body: Seq<u8>)
    ensures
        canonical_body(canonical_body(body)) == canonical_body(body),
{
    let relaxed = crlf_lines(body).map_values(|l: Seq<u8>| relaxed_line(l));
    let kept = drop_trailing_empty(relaxed);
    lemma_crlf_lines_no_crlf(body);
    lemma_drop_trailing_empty_prefix(relaxed);
    assert forall|k: int| 0 <= k < kept.len() implies no_crlf(#[trigger] kept[k]) by {
        assert(kept[k] == relaxed[k]);
        lemma_relaxed_line_no_crlf(crlf_lines(body)[k]);
    }
    lemma_crlf_lines_of_join(kept);
    let again = crlf_lines(join_crlf(kept)).map_values(|l: Seq<u8>| relaxed_line(l));
    assert forall|k: int| 0 <= k < kept.len() implies #[trigger] again[k] == kept[k] by {
        assert(kept[k] == relaxed_line(crlf_lines(body)[k]));
        relaxed_line_is_idempotent(crlf_lines(body)[k]);
    }
    assert(again =~= kept);
    if kept.len() > 0 {
        assert(drop_trailing_empty(kept) == kept);
    } else {
        assert(drop_trailing_empty(kept) =~= kept);
    }
}


/// `t` holds no CR and no LF byte.
pub open spec fn no_line_breaks(t: Seq<u8>) -> bool {
    forall|k: int| 0 <= k < t.len() ==> #[trigger] t[k] != 13 && t[k] != 10
}

/// Unfolding leaves no line break, and changes nothing where there is none.
proof fn lemma_strip_line_breaks(s: Seq<u8>)
    ensures
        no_line_breaks(strip_line_breaks(s)),
        no_line_breaks(s) ==> strip_line_breaks(s) == s,
    decreases s.len(),
{
    if s.len() > 0 {
        lemma_strip_line_breaks(s.drop_last());
        let r = strip_line_breaks(s.drop_last());
        if !(s.last() == 13 || s.last() == 10) {
            let t = r.push(s.last());
            assert forall|k: int| 0 <= k < t.len() implies #[trigger] t[k] != 13 && t[k] != 10 by {
                if k < r.len() {
                    assert(t[k] == r[k]);
                }
            }
        }
        if no_line_breaks(s) {
            assert(no_line_breaks(s.drop_last())) by {
                assert forall|k: int| 0 <= k < s.drop_last().len() implies #[trigger] s.drop_last()[k]
                    != 13 && s.drop_last()[k] != 10 by {
                    assert(s.drop_last()[k] == s[k]);
                }
            }
            assert(s.last() == s[s.len() - 1]);
            assert(s.drop_last().push(s.last()) =~= s);
        }
    }
}

/// Relaxing a line without line breaks adds none.
proof fn lemma_relaxed_line_no_line_breaks(s: Seq<u8>)
    requires
        no_line_breaks(s),
    ensures
        no_line_breaks(relaxed_line(s)),
    decreases s.len(),
{
    if s.len() > 0 {
        let p = s.drop_last();
        assert(no_line_breaks(p)) by {
            assert forall|k: int| 0 <= k < p.len() implies #[trigger] p[k] != 13 && p[k] != 10 by {
                assert(p[k] == s[k]);
            }
        }
        lemma_relaxed_line_no_line_breaks(p);
        let r = relaxed_line(p);
        let c = s.last();
        assert(c == s[s.len() - 1]);
        if !is_wsp(c) {
            if s.len() >= 2 && is_wsp(s[s.len() - 2]) {
                let t = r + seq![32u8, c];
                assert forall|k: int| 0 <= k < t.len() implies #[trigger] t[k] != 13 && t[k] != 10 by {
                    if k < r.len() {
                        assert(t[k] == r[k]);
                    }
                }
            } else {
                let t = r.push(c);
                assert forall|k: int| 0 <= k < t.len() implies #[trigger] t[k] != 13 && t[k] != 10 by {
                    if k < r.len() {
                        assert(t[k] == r[k]);
                    }
                }
            }
        }
    }
}

/// The relaxed form of a header field value is its own relaxed form.
pub proof fn relaxed_value_is_idempotent(v: Seq<u8>)
    ensures
        relaxed_value(relaxed_value(v)) == relaxed_value(v),
{
    let u = strip_line_breaks(v);
    lemma_strip_line_breaks(v);
    let r = relaxed_line(u);
    lemma_relaxed_line_shape(u);
    lemma_relaxed_line_no_line_breaks(u);
    let w = strip_leading_space(r);
    assert(no_line_breaks(w)) by {
        assert forall|k: int| 0 <= k < w.len() implies #[trigger] w[k] != 13 && w[k] != 10 by {
            if r.len() > 0 && r[0] == 32 {
                assert(w[k] == r[k + 1]);
            } else {
                assert(w[k] == r[k]);
            }
        }
    }
    lemma_strip_line_breaks(w);
    assert(single_spaced(w)) by {
        if r.len() > 0 && r[0] == 32 {
            assert forall|k: int| 0 <= k < w.len() implies #[trigger] w[k] != 9 by {
                assert(w[k] == r[k + 1]);
            }
            assert forall|k: int| 0 <= k < w.len() - 1 implies !(#[trigger] w[k] == 32 && w[k
                + 1] == 32) by {
                assert(w[k] == r[k + 1] && w[k + 1] == r[k + 2]);
            }
        }
    }
    lemma_relaxed_line_of_single_spaced(w);
    if w.len() > 0 {
        assert(w.last() == r.last());
    }
    assert(drop_final_space(w) == w);
    if w.len() > 0 && r.len() > 0 && r[0] == 32 {
        assert(w[0] == r[1]);
        assert(!(r[0] == 32 && r[1] == 32));
    }
    assert(strip_leading_space(w) == w);
}

} // verus!
