use vstd::prelude::*;

verus! {

/// Field separator of the tool's tabular output.
pub const COMMA: u8 = 44;

/// Line feed.
pub const LF: u8 = 10;

/// Carriage return.
pub const CR: u8 = 13;

/// Splitting a byte sequence on a separator, defined from the back: the last
/// segment grows byte by byte until a separator closes it and opens a new one.
/// An empty input yields one empty segment, so the result is never empty.
pub open spec fn split_on(s: Seq<u8>, sep: u8) -> Seq<Seq<u8>>
    decreases s.len(),
{
    if s.len() == 0 {
        seq![Seq::<u8>::empty()]
    } else if s.last() == sep {
        split_on(s.drop_last(), sep).push(Seq::<u8>::empty())
    } else {
        let r = split_on(s.drop_last(), sep);
        r.update(r.len() - 1, r.last().push(s.last()))
    }
}

pub proof fn lemma_split_on_len(s: Seq<u8>, sep: u8)
    ensures
        split_on(s, sep).len() >= 1,
    decreases s.len(),
{
    if s.len() > 0 {
        lemma_split_on_len(s.drop_last(), sep);
    }
}

/// Splits `s` on `sep`; mirrors `split_on` exactly.
pub fn split_bytes(s: &[u8], sep: u8) -> (r: Vec<Vec<u8>>)
    ensures
        r.deep_view() == split_on(s@, sep),
{
    let mut acc: Vec<Vec<u8>> = Vec::new();
    let mut cur: Vec<u8> = Vec::new();
    let mut i: usize = 0;
    proof {
        assert(s@.take(0) =~= Seq::<u8>::empty());
        assert(acc.deep_view().push(cur@) =~~= split_on(s@.take(0), sep));
    }
    while i < s.len()
        invariant
            0 <= i <= s@.len(),
            acc.deep_view().push(cur@) == split_on(s@.take(i as int), sep),
        decreases s@.len() - i,
    {
        let ghost prefix = s@.take(i as int);
        let ghost old_acc = acc.deep_view();
        let ghost old_cur = cur@;
        let b = s[i];
        if b == sep {
            acc.push(cur);
            cur = Vec::new();
        } else {
            cur.push(b);
        }
        i = i + 1;
        proof {
            let next = s@.take(i as int);
            assert(next.drop_last() =~= prefix);
            assert(next.last() == b);
            lemma_split_on_len(prefix, sep);
            if b == sep {
                assert(acc.deep_view() =~~= old_acc.push(old_cur));
                assert(acc.deep_view().push(cur@) =~~= split_on(next, sep));
            } else {
                let r = split_on(prefix, sep);
                assert(r == old_acc.push(old_cur));
                assert(r.last() == old_cur);
                assert(split_on(next, sep) == r.update(r.len() - 1, old_cur.push(b)));
                assert(acc.deep_view().push(cur@) =~~= r.update(r.len() - 1, old_cur.push(b)));
            }
        }
    }
    proof {
        assert(s@.take(s@.len() as int) =~= s@);
    }
    acc.push(cur);
    proof {
        assert(acc.deep_view() =~~= split_on(s@, sep));
    }
    acc
}

/// A line with its trailing carriage return removed, as `str::lines` does.
pub open spec fn strip_cr(l: Seq<u8>) -> Seq<u8> {
    if l.len() > 0 && l.last() == CR {
        l.drop_last()
    } else {
        l
    }
}

/// The lines of a text: split on line feeds, with no segment after a final
/// line feed, and a trailing carriage return removed from each line.
pub open spec fn spec_lines(s: Seq<u8>) -> Seq<Seq<u8>> {
    let raw = split_on(s, LF);
    let kept = if raw.last().len() == 0 {
        raw.drop_last()
    } else {
        raw
    };
    kept.map_values(|l: Seq<u8>| strip_cr(l))
}

/// Splits a text into its lines; mirrors `spec_lines` exactly.
pub fn split_lines(s: &[u8]) -> (r: Vec<Vec<u8>>)
    ensures
        r.deep_view() == spec_lines(s@),
{
    let mut raw = split_bytes(s, LF);
    let ghost raw0 = raw.deep_view();
    proof {
        lemma_split_on_len(s@, LF);
    }
    if raw[raw.len() - 1].len() == 0 {
        raw.pop();
    }
    let ghost kept = raw.deep_view();
    proof {
        if raw0.last().len() == 0 {
            assert(kept =~~= raw0.drop_last());
        } else {
            assert(kept =~~= raw0);
        }
    }
    let mut out: Vec<Vec<u8>> = Vec::new();
    let mut i: usize = 0;
    while i < raw.len()
        invariant
            0 <= i <= raw.deep_view().len(),
            raw.deep_view() == kept,
            out.deep_view() == kept.take(i as int).map_values(|l: Seq<u8>| strip_cr(l)),
        decreases raw.deep_view().len() - i,
    {
        let ghost old_out = out.deep_view();
        let line = &raw[i];
        proof {
            assert(kept[i as int] =~= line@);
        }
        let mut stripped: Vec<u8> = Vec::new();
        let keep_len = if line.len() > 0 && line[line.len() - 1] == CR {
            line.len() - 1
        } else {
            line.len()
        };
        proof {
            assert(strip_cr(line@) =~= line@.take(keep_len as int));
        }
        let mut j: usize = 0;
        while j < keep_len
            invariant
                0 <= j <= keep_len,
                keep_len <= line@.len(),
                stripped@ == line@.take(keep_len as int).take(j as int),
            decreases keep_len - j,
        {
            stripped.push(line[j]);
            proof {
                assert(stripped@ =~= line@.take(keep_len as int).take(j + 1));
            }
            j = j + 1;
        }
        proof {
            assert(line@.take(keep_len as int).take(keep_len as int) =~= line@.take(
                keep_len as int,
            ));
            assert(stripped@ =~= strip_cr(kept[i as int]));
        }
        proof {
            assert(stripped.deep_view() =~= stripped@);
        }
        out.push(stripped);
        i = i + 1;
        proof {
            assert(out.deep_view() =~~= old_out.push(strip_cr(kept[i - 1])));
            let m = kept.take(i as int).map_values(|l: Seq<u8>| strip_cr(l));
            assert(m.len() == i);
            assert forall|k: int| 0 <= k < i implies m[k] == out.deep_view()[k] by {
                assert(kept.take(i as int)[k] == kept[k]);
                if k < i - 1 {
                    assert(old_out[k] == kept.take(i - 1).map_values(
                        |l: Seq<u8>| strip_cr(l),
                    )[k]);
                }
            }
            assert(out.deep_view() =~~= m);
        }
    }
    proof {
        assert(kept.take(kept.len() as int) =~= kept);
        assert(out.deep_view() =~~= spec_lines(s@));
    }
    out
}

/// ASCII whitespace, the characters stripped from a field before it is
/// parsed as a number.
pub open spec fn is_space(b: u8) -> bool {
    b == 32 || b == 9 || b == 10 || b == 11 || b == 12 || b == 13
}

/// A sequence with its leading whitespace removed.
pub open spec fn trim_front(s: Seq<u8>) -> Seq<u8>
    decreases s.len(),
{
    if s.len() > 0 && is_space(s[0]) {
        trim_front(s.drop_first())
    } else {
        s
    }
}

/// A sequence with its trailing whitespace removed.
pub open spec fn trim_back(s: Seq<u8>) -> Seq<u8>
    decreases s.len(),
{
    if s.len() > 0 && is_space(s.last()) {
        trim_back(s.drop_last())
    } else {
        s
    }
}

/// A sequence with whitespace removed from both ends.
pub open spec fn spec_trim(s: Seq<u8>) -> Seq<u8> {
    trim_back(trim_front(s))
}

fn is_space_byte(b: u8) -> (r: bool)
    ensures
        r == is_space(b),
{
    b == 32 || b == 9 || b == 10 || b == 11 || b == 12 || b == 13
}

/// Removes whitespace from both ends of `s`; mirrors `spec_trim` exactly.
pub fn trim_bytes(s: &[u8]) -> (r: Vec<u8>)
    ensures
        r@ == spec_trim(s@),
{
    let mut lo: usize = 0;
    proof {
        assert(s@.skip(0) =~= s@);
    }
    while lo < s.len() && is_space_byte(s[lo])
        invariant
            0 <= lo <= s@.len(),
            trim_front(s@) == trim_front(s@.skip(lo as int)),
        decreases s@.len() - lo,
    {
        proof {
            assert(s@.skip(lo as int).drop_first() =~= s@.skip(lo + 1));
        }
        lo = lo + 1;
    }
    proof {
        if lo < s@.len() {
            assert(trim_front(s@) =~= s@.skip(lo as int));
        } else {
            assert(s@.skip(lo as int) =~= Seq::<u8>::empty());
            assert(trim_front(s@) =~= s@.skip(lo as int));
        }
    }
    let mut hi: usize = s.len();
    while hi > lo && is_space_byte(s[hi - 1])
        invariant
            lo <= hi <= s@.len(),
            trim_back(s@.skip(lo as int)) == trim_back(s@.subrange(lo as int, hi as int)),
        decreases hi,
    {
        proof {
            assert(s@.subrange(lo as int, hi as int).drop_last() =~= s@.subrange(
                lo as int,
                hi - 1,
            ));
        }
        hi = hi - 1;
    }
    proof {
        assert(spec_trim(s@) =~= s@.subrange(lo as int, hi as int));
    }
    let mut r: Vec<u8> = Vec::new();
    let mut i: usize = lo;
    while i < hi
        invariant
            lo <= i <= hi <= s@.len(),
            r@ == s@.subrange(lo as int, i as int),
        decreases hi - i,
    {
        r.push(s[i]);
        proof {
            assert(r@ =~= s@.subrange(lo as int, i + 1));
        }
        i = i + 1;
    }
    r
}

/// Whether `h` contains the byte `b`.
pub fn contains_byte(h: &[u8], b: u8) -> (r: bool)
    ensures
        r == h@.contains(b),
{
    let mut i: usize = 0;
    while i < h.len()
        invariant
            0 <= i <= h@.len(),
            forall|k: int| 0 <= k < i ==> h@[k] != b,
        decreases h@.len() - i,
    {
        if h[i] == b {
            return true;
        }
        i = i + 1;
    }
    false
}

/// Whether the needle `n` occurs as a contiguous run inside `h`.
pub open spec fn contains_seq(h: Seq<u8>, n: Seq<u8>) -> bool {
    exists|i: int| 0 <= i && i + n.len() <= h.len() && #[trigger] h.subrange(i, i + n.len()) == n
}

fn matches_at(h: &[u8], n: &[u8], i: usize) -> (r: bool)
    requires
        i + n@.len() <= h@.len(),
    ensures
        r == (h@.subrange(i as int, i as int + n@.len()) == n@),
{
    let hlen = h.len();
    let mut j: usize = 0;
    while j < n.len()
        invariant
            0 <= j <= n@.len(),
            i + n@.len() <= h@.len(),
            h@.len() == hlen,
            forall|k: int| 0 <= k < j ==> h@[i + k] == n@[k],
        decreases n@.len() - j,
    {
        if h[i + j] != n[j] {
            proof {
                assert(h@.subrange(i as int, i as int + n@.len())[j as int] != n@[j as int]);
            }
            return false;
        }
        j = j + 1;
    }
    proof {
        assert(h@.subrange(i as int, i as int + n@.len()) =~= n@);
    }
    true
}

/// Whether `n` occurs inside `h`; mirrors `contains_seq` exactly.
pub fn contains_subslice(h: &[u8], n: &[u8]) -> (r: bool)
    ensures
        r == contains_seq(h@, n@),
{
    if n.len() > h.len() {
        return false;
    }
    if n.len() == 0 {
        proof {
            assert(h@.subrange(0, 0 + n@.len() as int) =~= n@);
        }
        return true;
    }
    let hlen = h.len();
    let mut i: usize = 0;
    while i <= h.len() - n.len()
        invariant
            1 <= n@.len() <= h@.len(),
            h@.len() == hlen,
            0 <= i <= h@.len() - n@.len() + 1,
            forall|k: int|
                0 <= k < i ==> #[trigger] h@.subrange(k, k + n@.len()) != n@,
        decreases h@.len() - n@.len() + 1 - i,
    {
        if matches_at(h, n, i) {
            return true;
        }
        i = i + 1;
    }
    false
}

/// The header sentinel: a row holding it is a table header, not data.
pub open spec fn header_marker() -> Seq<u8> {
    seq![83u8, 121u8, 115u8, 116u8, 101u8, 109u8]
}

/// The section-title sentinel: a row holding it introduces a table section.
pub open spec fn section_marker() -> Seq<u8> {
    seq![77u8, 69u8, 84u8, 82u8, 73u8, 67u8, 83u8]
}

/// The header sentinel "System", as bytes.
pub fn header_marker_bytes() -> (r: Vec<u8>)
    ensures
        r@ == header_marker(),
{
    let mut v: Vec<u8> = Vec::new();
    v.push(83);
    v.push(121);
    v.push(115);
    v.push(116);
    v.push(101);
    v.push(109);
    proof {
        assert(v@ =~= header_marker());
    }
    v
}

/// The section-title sentinel "METRICS", as bytes.
pub fn section_marker_bytes() -> (r: Vec<u8>)
    ensures
        r@ == section_marker(),
{
    let mut v: Vec<u8> = Vec::new();
    v.push(77);
    v.push(69);
    v.push(84);
    v.push(82);
    v.push(73);
    v.push(67);
    v.push(83);
    proof {
        assert(v@ =~= section_marker());
    }
    v
}

/// What `str::parse::<f64>` makes of a field: the parsed number's bit
/// pattern, or nothing where the text is not a number. The result depends on
/// the bytes alone.
pub uninterp spec fn f64_bits_of(field: Seq<u8>) -> Option<u64>;

/// Relies on `str::parse::<f64>`: parses the bytes, taken as UTF-8 text, as a
/// floating-point number. Bytes that are not valid UTF-8 (`core::str::from_utf8`
/// fails) parse as no number. A parsed number is handed back as its bit
/// pattern, carried through the atomic cell a prometheus gauge stores its
/// value in: `AtomicF64` keeps exactly the bit pattern of what was put in,
/// so the round trip is the identity on the parsed number.
#[verifier::external_body]
fn parse_f64_bits(b: &[u8]) -> (r: Option<u64>)
    ensures
        r == f64_bits_of(b@),
{
    match core::str::from_utf8(b) {
        Ok(s) => s.parse().ok().map(
            |v| <prometheus::core::AtomicF64 as prometheus::core::Atomic>::get(
                &<prometheus::core::AtomicF64 as prometheus::core::Atomic>::new(v),
            ).to_bits(),
        ),
        Err(_) => None,
    }
}

/// The value a field contributes to a sample record: the parsed number's bit
/// pattern, or the bit pattern of zero where the trimmed field is not a
/// number. A bad field never invalidates its row.
pub open spec fn field_value(field: Seq<u8>) -> u64 {
    match f64_bits_of(spec_trim(field)) {
        Some(bits) => bits,
        None => 0,
    }
}

/// Parses one field; mirrors `field_value` exactly.
pub fn parse_field(field: &[u8]) -> (r: u64)
    ensures
        r == field_value(field@),
{
    let trimmed = trim_bytes(field);
    match parse_f64_bits(trimmed.as_slice()) {
        Some(bits) => bits,
        None => 0,
    }
}

/// The structural criteria for a data row: it has a field separator, holds
/// neither sentinel, and splits into at least the expected number of fields.
pub open spec fn row_qualifies(l: Seq<u8>) -> bool {
    &&& l.contains(COMMA)
    &&& !contains_seq(l, header_marker())
    &&& !contains_seq(l, section_marker())
    &&& split_on(l, COMMA).len() >= crate::catalog::MEASUREMENT_COUNT as int
}

/// The record a qualifying row yields: the first `MEASUREMENT_COUNT` fields,
/// each parsed independently.
pub open spec fn row_values(l: Seq<u8>) -> Seq<u64> {
    Seq::new(
        crate::catalog::MEASUREMENT_COUNT as nat,
        |i: int| field_value(split_on(l, COMMA)[i]),
    )
}

/// The last row of `ls` that satisfies the structural criteria, if any:
/// scanning in reverse keeps the freshest sample.
pub open spec fn last_data_row(ls: Seq<Seq<u8>>) -> Option<Seq<u8>>
    decreases ls.len(),
{
    if ls.len() == 0 {
        None
    } else if row_qualifies(ls.last()) {
        Some(ls.last())
    } else {
        last_data_row(ls.drop_last())
    }
}

/// What a parse of the whole text yields: the values of the last qualifying
/// row, or nothing where no row qualifies.
pub open spec fn parse_spec(content: Seq<u8>) -> Option<Seq<u64>> {
    match last_data_row(spec_lines(content)) {
        Some(l) => Some(row_values(l)),
        None => None,
    }
}

/// Whether `line` satisfies the structural criteria for a data row.
pub fn is_data_row(line: &[u8]) -> (r: bool)
    ensures
        r == row_qualifies(line@),
{
    if !contains_byte(line, COMMA) {
        return false;
    }
    let header = header_marker_bytes();
    if contains_subslice(line, header.as_slice()) {
        return false;
    }
    let section = section_marker_bytes();
    if contains_subslice(line, section.as_slice()) {
        return false;
    }
    let parts = split_bytes(line, COMMA);
    parts.len() >= crate::catalog::MEASUREMENT_COUNT
}

/// Parses a qualifying row into its record; mirrors `row_values` exactly.
pub fn parse_data_row(line: &[u8]) -> (r: Vec<u64>)
    requires
        row_qualifies(line@),
    ensures
        r@ == row_values(line@),
{
    let parts = split_bytes(line, COMMA);
    let mut vals: Vec<u64> = Vec::new();
    let mut i: usize = 0;
    while i < crate::catalog::MEASUREMENT_COUNT
        invariant
            0 <= i <= crate::catalog::MEASUREMENT_COUNT as int,
            parts.deep_view() == split_on(line@, COMMA),
            parts.deep_view().len() >= crate::catalog::MEASUREMENT_COUNT as int,
            vals@ == row_values(line@).take(i as int),
        decreases crate::catalog::MEASUREMENT_COUNT as int - i,
    {
        proof {
            assert(parts[i as int]@ =~= parts.deep_view()[i as int]);
        }
        let v = parse_field(parts[i].as_slice());
        vals.push(v);
        i = i + 1;
        proof {
            assert(vals@ =~= row_values(line@).take(i as int));
        }
    }
    proof {
        assert(row_values(line@).take(crate::catalog::MEASUREMENT_COUNT as int) =~= row_values(
            line@,
        ));
    }
    vals
}

/// The first `MEASUREMENT_COUNT` fields of a row, unparsed.
pub open spec fn row_fields(l: Seq<u8>) -> Seq<Seq<u8>> {
    Seq::new(crate::catalog::MEASUREMENT_COUNT as nat, |i: int| split_on(l, COMMA)[i])
}

/// What a scan of the whole text yields: the fields of the last qualifying
/// row, or nothing where no row qualifies.
pub open spec fn extract_spec(content: Seq<u8>) -> Option<Seq<Seq<u8>>> {
    match last_data_row(spec_lines(content)) {
        Some(l) => Some(row_fields(l)),
        None => None,
    }
}

/// Cuts a qualifying row into its fields; mirrors `row_fields` exactly.
pub fn split_row_fields(line: &[u8]) -> (r: Vec<Vec<u8>>)
    requires
        row_qualifies(line@),
    ensures
        r.deep_view() == row_fields(line@),
{
    let parts = split_bytes(line, COMMA);
    let mut fields: Vec<Vec<u8>> = Vec::new();
    let mut i: usize = 0;
    while i < crate::catalog::MEASUREMENT_COUNT
        invariant
            0 <= i <= crate::catalog::MEASUREMENT_COUNT as int,
            parts.deep_view() == split_on(line@, COMMA),
            parts.deep_view().len() >= crate::catalog::MEASUREMENT_COUNT as int,
            fields.deep_view() == row_fields(line@).take(i as int),
        decreases crate::catalog::MEASUREMENT_COUNT as int - i,
    {
        let ghost old_fields = fields.deep_view();
        let f = parts[i].clone();
        proof {
            assert(f@ =~= parts.deep_view()[i as int]);
            assert(f.deep_view() =~= f@);
        }
        fields.push(f);
        i = i + 1;
        proof {
            assert(fields.deep_view() =~~= old_fields.push(f@));
            let m = row_fields(line@).take(i as int);
            assert(m.len() == i);
            assert forall|k: int| 0 <= k < i implies m[k] == fields.deep_view()[k] by {
                assert(m[k] == row_fields(line@)[k]);
                if k < i - 1 {
                    assert(old_fields[k] == row_fields(line@).take(i - 1)[k]);
                }
            }
            assert(fields.deep_view() =~~= m);
        }
    }
    proof {
        assert(row_fields(line@).take(crate::catalog::MEASUREMENT_COUNT as int) =~~= row_fields(
            line@,
        ));
    }
    fields
}

/// Finds the freshest usable sample in the tool's output text: the fields of
/// the last row that satisfies the structural criteria; `None` where no row
/// in the entire text qualifies.
pub fn extract_data_row(content: &[u8]) -> (r: Option<Vec<Vec<u8>>>)
    ensures
        r.deep_view() == extract_spec(content@),
{
    let lines = split_lines(content);
    let ghost ls = spec_lines(content@);
    let mut i: usize = lines.len();
    proof {
        assert(ls.take(ls.len() as int) =~~= ls);
    }
    while i > 0
        invariant
            0 <= i <= lines.deep_view().len(),
            ls == spec_lines(content@),
            lines.deep_view() == ls,
            last_data_row(ls) == last_data_row(ls.take(i as int)),
        decreases i,
    {
        let line = &lines[i - 1];
        proof {
            assert(line@ =~= ls[i - 1]);
            assert(ls.take(i as int).last() == ls[i - 1]);
        }
        if is_data_row(line.as_slice()) {
            let fields = split_row_fields(line.as_slice());
            proof {
                assert(last_data_row(ls.take(i as int)) == Some(ls[i - 1]));
                assert(fields.deep_view() =~~= row_fields(ls[i - 1]));
                let rr: Option<Seq<Seq<u8>>> = Some(fields.deep_view());
                assert(rr == extract_spec(content@));
            }
            return Some(fields);
        }
        proof {
            assert(ls.take(i as int).drop_last() =~~= ls.take(i - 1));
        }
        i = i - 1;
    }
    proof {
        assert(ls.take(0) =~~= Seq::<Seq<u8>>::empty());
    }
    None
}

/// Finds the freshest usable sample in the tool's output text: the last row
/// that satisfies the structural criteria, parsed field by field; `None`
/// where no row in the entire text qualifies.
pub fn parse_uprof_output(content: &[u8]) -> (r: Option<Vec<u64>>)
    ensures
        r.deep_view() == parse_spec(content@),
{
    let fields = match extract_data_row(content) {
        Some(fields) => fields,
        None => {
            return None;
        },
    };
    let ghost l = last_data_row(spec_lines(content@))->Some_0;
    let mut vals: Vec<u64> = Vec::new();
    let mut i: usize = 0;
    proof {
        assert(fields.deep_view() == row_fields(l));
        assert(fields.deep_view().len() == crate::catalog::MEASUREMENT_COUNT as int);
        assert(vals@ =~= row_values(l).take(0));
    }
    while i < crate::catalog::MEASUREMENT_COUNT
        invariant
            0 <= i <= crate::catalog::MEASUREMENT_COUNT as int,
            fields.deep_view() == row_fields(l),
            fields@.len() == crate::catalog::MEASUREMENT_COUNT as int,
            vals@ == row_values(l).take(i as int),
        decreases crate::catalog::MEASUREMENT_COUNT as int - i,
    {
        proof {
            assert(fields[i as int]@ =~= fields.deep_view()[i as int]);
        }
        let v = parse_field(fields[i].as_slice());
        vals.push(v);
        i = i + 1;
        proof {
            assert(vals@ =~= row_values(l).take(i as int));
        }
    }
    proof {
        assert(row_values(l).take(crate::catalog::MEASUREMENT_COUNT as int) =~= row_values(l));
        assert(vals.deep_view() =~= vals@);
    }
    Some(vals)
}

/// Law: a parse yields a record exactly when some line satisfies the
/// structural criteria; the record then holds the values of the last such
/// line, so the freshest appended sample wins.
pub proof fn lemma_parser_row_selection(ls: Seq<Seq<u8>>)
    ensures
        (last_data_row(ls) is Some) <==> (exists|i: int|
            0 <= i < ls.len() && row_qualifies(#[trigger] ls[i])),
        last_data_row(ls) is Some ==> exists|i: int|
            {
                &&& 0 <= i < ls.len()
                &&& row_qualifies(#[trigger] ls[i])
                &&& last_data_row(ls) == Some(ls[i])
                &&& forall|j: int| i < j < ls.len() ==> !row_qualifies(#[trigger] ls[j])
            },
    decreases ls.len(),
{
    if ls.len() == 0 {
    } else if row_qualifies(ls.last()) {
        let i = ls.len() - 1;
        assert(0 <= i < ls.len() && row_qualifies(ls[i]) && last_data_row(ls) == Some(ls[i])
            && forall|j: int| i < j < ls.len() ==> !row_qualifies(#[trigger] ls[j]));
    } else {
        let prefix = ls.drop_last();
        lemma_parser_row_selection(prefix);
        if last_data_row(prefix) is Some {
            let i = choose|i: int|
                {
                    &&& 0 <= i < prefix.len()
                    &&& row_qualifies(#[trigger] prefix[i])
                    &&& last_data_row(prefix) == Some(prefix[i])
                    &&& forall|j: int| i < j < prefix.len() ==> !row_qualifies(#[trigger] prefix[j])
                };
            assert(ls[i] == prefix[i]);
            assert forall|j: int| i < j < ls.len() implies !row_qualifies(#[trigger] ls[j]) by {
                if j < ls.len() - 1 {
                    assert(prefix[j] == ls[j]);
                } else {
                    assert(ls[j] == ls.last());
                }
            }
            assert(0 <= i < ls.len() && row_qualifies(ls[i]) && last_data_row(ls) == Some(
                ls[i],
            ));
        } else {
            assert forall|i: int| 0 <= i < ls.len() implies !row_qualifies(#[trigger] ls[i]) by {
                if i < ls.len() - 1 {
                    assert(prefix[i] == ls[i]);
                }
            }
        }
    }
}

/// Law: in a qualifying row each slot is the value of its own field alone,
/// and a field that does not parse as a number yields the bit pattern of
/// zero in its slot without touching any other slot.
pub proof fn lemma_field_tolerance(l: Seq<u8>, i: int)
    requires
        row_qualifies(l),
        0 <= i < crate::catalog::MEASUREMENT_COUNT as int,
    ensures
        row_values(l).len() == crate::catalog::MEASUREMENT_COUNT as int,
        row_values(l)[i] == field_value(split_on(l, COMMA)[i]),
        f64_bits_of(spec_trim(split_on(l, COMMA)[i])) is None ==> row_values(l)[i] == 0,
{
}

} // verus!
