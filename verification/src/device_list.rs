//! The device registry parser: turns the free-text status report of the
//! external USB-over-IP tool into an ordered sequence of device records.
//!
//! The report consists of optional `Connected:` / `Persisted:` section
//! headers, an optional `BUSID ...` column header, and data rows of at
//! least four whitespace-separated tokens. Parsing is a pure function of
//! the text: blank and malformed lines are discarded, never an error.

use crate::text::{
    copy_range, is_space, join_words, lemma_line_len_is, lemma_tokens_head_token,
    lemma_tokens_skip_spaces, line_len, range_starts_with, scan_line, scan_spaces, scan_token,
    split_lines, starts_with, tokens, trim, trim_range,
};
use vstd::prelude::*;
use vstd::string::*;

verus! {

/// One discovered USB device, read from one data row of the status report.
/// All text fields are carried over opaquely; `persisted` records whether
/// the row stood in the report's `Persisted:` section.
#[derive(Clone, Debug, PartialEq, Eq)]
pub struct UsbipDevice {
    pub busid: String,
    pub vidpid: String,
    pub device: String,
    pub state: String,
    pub persisted: bool,
}

/// Mathematical view of a device record: each text field as its characters.
#[verifier::ext_equal]
pub struct DeviceView {
    pub busid: Seq<char>,
    pub vidpid: Seq<char>,
    pub device: Seq<char>,
    pub state: Seq<char>,
    pub persisted: bool,
}

impl View for UsbipDevice {
    type V = DeviceView;

    open spec fn view(&self) -> DeviceView {
        DeviceView {
            busid: self.busid@,
            vidpid: self.vidpid@,
            device: self.device@,
            state: self.state@,
            persisted: self.persisted,
        }
    }
}

/// The views of a sequence of records.
pub open spec fn views_of(devices: Seq<UsbipDevice>) -> Seq<DeviceView> {
    devices.map_values(|d: UsbipDevice| d@)
}

/// The record described by a data row's tokens: the first token is the bus
/// id, the second the vendor:product id, the last the state, and the tokens
/// in between, joined with single spaces, the description.
pub open spec fn record_of(ts: Seq<Seq<char>>, persisted: bool) -> DeviceView
    recommends
        ts.len() >= 4,
{
    DeviceView {
        busid: ts[0],
        vidpid: ts[1],
        device: join_words(ts.subrange(2, ts.len() - 1)),
        state: ts[ts.len() - 1],
        persisted: persisted,
    }
}

/// A trimmed line that is a header, not data: the two section headers and
/// the column header of the report.
pub open spec fn is_header(t: Seq<char>) -> bool {
    starts_with(t, "Connected:"@) || starts_with(t, "Persisted:"@) || starts_with(t, "BUSID"@)
}

/// The records a single line contributes, under the section flag in force:
/// headers, blank lines and lines of fewer than four tokens contribute
/// nothing; any other line is a data row and contributes one record.
pub open spec fn line_records(line: Seq<char>, persisted: bool) -> Seq<DeviceView> {
    let t = trim(line);
    if t.len() == 0 || is_header(t) || tokens(t).len() < 4 {
        Seq::empty()
    } else {
        seq![record_of(tokens(t), persisted)]
    }
}

/// The section flag in force after a line: a `Connected:` header clears it,
/// a `Persisted:` header sets it, and every other line leaves it unchanged.
pub open spec fn section_after(line: Seq<char>, persisted: bool) -> bool {
    let t = trim(line);
    if starts_with(t, "Connected:"@) {
        false
    } else if starts_with(t, "Persisted:"@) {
        true
    } else {
        persisted
    }
}

/// The records of a sequence of lines, read in order, with the section flag
/// threaded from line to line.
pub open spec fn parse_lines(lines: Seq<Seq<char>>, persisted: bool) -> Seq<DeviceView>
    decreases lines.len(),
{
    if lines.len() == 0 {
        Seq::empty()
    } else {
        line_records(lines[0], persisted) + parse_lines(
            lines.drop_first(),
            section_after(lines[0], persisted),
        )
    }
}

/// The device records of a whole status report: its lines in order, with
/// the section flag initially clear, so a data row before any header counts
/// as not persisted.
pub open spec fn parse_report(report: Seq<char>) -> Seq<DeviceView> {
    parse_lines(split_lines(report), false)
}

/// Bounds of the whitespace-separated tokens of the characters of `s` at
/// `[at, end)`, in order.
pub open spec fn ranges_of(s: Seq<char>, toks: Seq<(usize, usize)>) -> Seq<Seq<char>> {
    toks.map_values(|p: (usize, usize)| s.subrange(p.0 as int, p.1 as int))
}

fn tokenize_range(s: &str, at: usize, end: usize) -> (toks: Vec<(usize, usize)>)
    requires
        at <= end <= s@.len(),
    ensures
        ranges_of(s@, toks@) == tokens(s@.subrange(at as int, end as int)),
        forall|q: int| 0 <= q < toks@.len() ==> at <= #[trigger] toks@[q].0 < toks@[q].1 <= end,
{
    let mut toks: Vec<(usize, usize)> = Vec::new();
    let mut i: usize = at;
    proof {
        assert(ranges_of(s@, toks@) =~= Seq::<Seq<char>>::empty());
    }
    loop
        invariant
            at <= i <= end <= s@.len(),
            tokens(s@.subrange(at as int, end as int)) == ranges_of(s@, toks@) + tokens(
                s@.subrange(i as int, end as int),
            ),
            forall|q: int| 0 <= q < toks@.len() ==> at <= #[trigger] toks@[q].0 < toks@[q].1
                <= end,
        ensures
            ranges_of(s@, toks@) == tokens(s@.subrange(at as int, end as int)),
        decreases end - i,
    {
        let j = scan_spaces(s, i, end);
        proof {
            let sub_i = s@.subrange(i as int, end as int);
            assert forall|k: int| 0 <= k < j - i implies is_space(sub_i[k]) by {
                assert(sub_i[k] == s@[i + k]);
            }
            lemma_tokens_skip_spaces(sub_i, j - i);
            assert(sub_i.skip(j - i) =~= s@.subrange(j as int, end as int));
        }
        if j == end {
            proof {
                assert(tokens(s@.subrange(end as int, end as int)) =~= Seq::<Seq<char>>::empty());
                assert(ranges_of(s@, toks@) + Seq::<Seq<char>>::empty() =~= ranges_of(s@, toks@));
            }
            break;
        }
        let k = scan_token(s, j, end);
        proof {
            assert(k > j) by {
                if k == j {
                    assert(is_space(s@[j as int]));
                }
            }
            let sub_j = s@.subrange(j as int, end as int);
            assert forall|q: int| 0 <= q < k - j implies !is_space(sub_j[q]) by {
                assert(sub_j[q] == s@[j + q]);
            }
            assert(k - j < sub_j.len() ==> is_space(sub_j[k - j]));
            lemma_tokens_head_token(sub_j, k - j);
            assert(sub_j.take(k - j) =~= s@.subrange(j as int, k as int));
            assert(sub_j.skip(k - j) =~= s@.subrange(k as int, end as int));
        }
        let ghost old_toks = toks@;
        toks.push((j, k));
        proof {
            assert(ranges_of(s@, toks@) =~= ranges_of(s@, old_toks).push(
                s@.subrange(j as int, k as int),
            ));
            assert(tokens(s@.subrange(at as int, end as int)) =~= ranges_of(s@, toks@) + tokens(
                s@.subrange(k as int, end as int),
            ));
        }
        i = k;
    }
    toks
}

fn process_line(
    report: &str,
    lo: usize,
    hi: usize,
    persisted: &mut bool,
    devices: &mut Vec<UsbipDevice>,
)
    requires
        lo <= hi <= report@.len(),
    ensures
        *final(persisted) == section_after(
            report@.subrange(lo as int, hi as int),
            *old(persisted),
        ),
        views_of(final(devices)@) == views_of(old(devices)@) + line_records(
            report@.subrange(lo as int, hi as int),
            *old(persisted),
        ),
{
    let ghost line = report@.subrange(lo as int, hi as int);
    let ghost flag0 = *persisted;
    let (a, b) = trim_range(report, lo, hi);
    let ghost t = report@.subrange(a as int, b as int);
    proof {
        assert(t == trim(line));
    }
    if a == b {
        proof {
            reveal_strlit("Connected:");
            reveal_strlit("Persisted:");
            reveal_strlit("BUSID");
            assert(t.len() == 0);
            assert(line_records(line, flag0) =~= Seq::<DeviceView>::empty());
            assert(views_of(devices@) + Seq::<DeviceView>::empty() =~= views_of(devices@));
            assert(section_after(line, flag0) == flag0);
        }
        return ;
    }
    if range_starts_with(report, a, b, "Connected:") {
        *persisted = false;
        proof {
            assert(line_records(line, flag0) =~= Seq::<DeviceView>::empty());
            assert(views_of(devices@) + Seq::<DeviceView>::empty() =~= views_of(devices@));
        }
        return ;
    }
    if range_starts_with(report, a, b, "Persisted:") {
        *persisted = true;
        proof {
            assert(line_records(line, flag0) =~= Seq::<DeviceView>::empty());
            assert(views_of(devices@) + Seq::<DeviceView>::empty() =~= views_of(devices@));
        }
        return ;
    }
    if range_starts_with(report, a, b, "BUSID") {
        proof {
            assert(line_records(line, flag0) =~= Seq::<DeviceView>::empty());
            assert(views_of(devices@) + Seq::<DeviceView>::empty() =~= views_of(devices@));
            assert(section_after(line, flag0) == flag0);
        }
        return ;
    }
    let toks = tokenize_range(report, a, b);
    proof {
        assert(ranges_of(report@, toks@) == tokens(t));
        assert(section_after(line, flag0) == flag0);
    }
    if toks.len() < 4 {
        proof {
            assert(tokens(t).len() < 4);
            assert(line_records(line, flag0) =~= Seq::<DeviceView>::empty());
            assert(views_of(devices@) + Seq::<DeviceView>::empty() =~= views_of(devices@));
        }
        return ;
    }
    let ghost ts = tokens(t);
    let ghost mid = ts.subrange(2, ts.len() - 1);
    let t0 = toks[0];
    let busid = copy_range(report, t0.0, t0.1);
    let t1 = toks[1];
    let vidpid = copy_range(report, t1.0, t1.1);
    let tn = toks[toks.len() - 1];
    let state = copy_range(report, tn.0, tn.1);
    let t2 = toks[2];
    let mut device = copy_range(report, t2.0, t2.1);
    proof {
        assert(mid[0] == ts[2]);
        assert(mid.take(1) =~= seq![mid[0]]);
        assert(join_words(mid.take(1)) == mid[0]);
        assert(device@ == join_words(mid.take(1)));
    }
    let mut j: usize = 3;
    while j < toks.len() - 1
        invariant
            3 <= j <= toks.len() - 1,
            4 <= toks.len(),
            toks@.len() == ts.len(),
            ranges_of(report@, toks@) == ts,
            mid == ts.subrange(2, ts.len() - 1),
            forall|q: int| 0 <= q < toks@.len() ==> #[trigger] toks@[q].0 < toks@[q].1
                <= report@.len(),
            device@ == join_words(mid.take(j - 2)),
        decreases toks.len() - j,
    {
        let sep = device.concat(" ");
        let tj = toks[j];
        let piece = report.substring_char(tj.0, tj.1);
        device = sep.concat(piece);
        proof {
            reveal_strlit(" ");
            assert(" "@ =~= seq![' ']);
            assert(piece@ == ts[j as int]);
            assert(mid[j - 2] == ts[j as int]);
            assert(mid.take(j - 1).drop_last() =~= mid.take(j - 2));
            assert(mid.take(j - 1).last() == mid[j - 2]);
            assert(join_words(mid.take(j - 1)) == join_words(mid.take(j - 2)) + seq![' ']
                + mid[j - 2]);
        }
        j += 1;
    }
    proof {
        assert(mid.take(ts.len() - 3) =~= mid);
        assert(device@ == join_words(mid));
    }
    let rec = UsbipDevice { busid, vidpid, device, state, persisted: *persisted };
    let ghost old_devices = devices@;
    devices.push(rec);
    proof {
        assert(rec@ =~= record_of(ts, flag0));
        assert(t.len() > 0);
        assert(!is_header(t));
        assert(line_records(line, flag0) == seq![record_of(ts, flag0)]);
        assert(views_of(devices@) =~= views_of(old_devices).push(rec@));
        assert(views_of(old_devices).push(rec@) =~= views_of(old_devices) + line_records(
            line,
            flag0,
        ));
    }
}

/// Reads a status report into its device records, one per data row, in
/// report order. Section headers switch the persisted flag, the column
/// header and malformed rows are discarded, and every text field is carried
/// over opaquely. An empty report yields no records; parsing never fails.
pub fn parse(report: &str) -> (devices: Vec<UsbipDevice>)
    ensures
        views_of(devices@) == parse_report(report@),
{
    let n: usize = report.unicode_len();
    let mut devices: Vec<UsbipDevice> = Vec::new();
    let mut persisted: bool = false;
    let mut lo: usize = 0;
    proof {
        assert(report@.skip(0) =~= report@);
        assert(views_of(devices@) =~= Seq::<DeviceView>::empty());
    }
    loop
        invariant_except_break
            parse_report(report@) == views_of(devices@) + parse_lines(
                split_lines(report@.skip(lo as int)),
                persisted,
            ),
        invariant
            0 <= lo <= n,
            n == report@.len(),
        ensures
            views_of(devices@) == parse_report(report@),
        decreases n - lo,
    {
        let hi = scan_line(report, lo);
        let ghost rem = report@.skip(lo as int);
        let ghost line = report@.subrange(lo as int, hi as int);
        proof {
            assert forall|k: int| 0 <= k < hi - lo implies rem[k] != '\n' by {
                assert(rem[k] == report@[lo + k]);
            }
            assert(hi - lo < rem.len() ==> rem[hi - lo] == '\n');
            lemma_line_len_is(rem, hi - lo);
            assert(rem.take(hi - lo) =~= line);
        }
        let ghost flag0 = persisted;
        let ghost vs0 = views_of(devices@);
        process_line(report, lo, hi, &mut persisted, &mut devices);
        if hi == n {
            proof {
                assert(line_len(rem) == rem.len());
                assert(split_lines(rem) == seq![rem]);
                assert(rem =~= line);
                assert(parse_lines(
                    Seq::<Seq<char>>::empty(),
                    section_after(line, flag0),
                ) == Seq::<DeviceView>::empty());
                assert(seq![line].drop_first() =~= Seq::<Seq<char>>::empty());
                assert(seq![line][0] == line);
                assert(parse_lines(seq![line], flag0) == line_records(line, flag0)
                    + Seq::<DeviceView>::empty());
                assert(line_records(line, flag0) + Seq::<DeviceView>::empty() =~= line_records(
                    line,
                    flag0,
                ));
                assert(parse_report(report@) == vs0 + line_records(line, flag0));
                assert(views_of(devices@) == parse_report(report@));
            }
            break;
        }
        proof {
            assert(line_len(rem) < rem.len());
            assert(split_lines(rem) == seq![rem.take(hi - lo)] + split_lines(
                rem.skip(hi - lo + 1),
            ));
            assert(rem.skip(hi - lo + 1) =~= report@.skip(hi + 1 as int));
            let ls = split_lines(rem);
            assert(ls[0] == line);
            assert(ls.drop_first() =~= split_lines(report@.skip(hi + 1 as int)));
            assert(parse_lines(ls, flag0) == line_records(line, flag0) + parse_lines(
                split_lines(report@.skip(hi + 1 as int)),
                section_after(line, flag0),
            ));
            assert(parse_report(report@) =~= views_of(devices@) + parse_lines(
                split_lines(report@.skip(hi + 1 as int)),
                persisted,
            ));
        }
        lo = hi + 1;
    }
    devices
}

/// Parsing is pure and deterministic: the records of a report are a
/// function of its text alone, so any two parses of the same text agree.
pub proof fn lemma_parse_deterministic(
    report: Seq<char>,
    r1: Seq<DeviceView>,
    r2: Seq<DeviceView>,
)
    requires
        r1 == parse_report(report),
        r2 == parse_report(report),
    ensures
        r1 == r2,
{
}

/// A data row's fields come from its tokens exactly: the first token is the
/// bus id, the second the vendor:product id, the middle tokens joined with
/// single spaces the description, and the last token the state.
pub proof fn lemma_data_line_fields(line: Seq<char>, persisted: bool)
    requires
        trim(line).len() > 0,
        !is_header(trim(line)),
        tokens(trim(line)).len() >= 4,
    ensures
        line_records(line, persisted) == seq![record_of(tokens(trim(line)), persisted)],
        record_of(tokens(trim(line)), persisted).busid == tokens(trim(line))[0],
        record_of(tokens(trim(line)), persisted).vidpid == tokens(trim(line))[1],
        record_of(tokens(trim(line)), persisted).device == join_words(
            tokens(trim(line)).subrange(2, tokens(trim(line)).len() - 1),
        ),
        record_of(tokens(trim(line)), persisted).state == tokens(trim(line)).last(),
        record_of(tokens(trim(line)), persisted).persisted == persisted,
{
}

/// Blank lines, column-header lines and rows of fewer than four tokens are
/// excluded from the output and have no effect on the section flag.
pub proof fn lemma_excluded_line(line: Seq<char>, rest: Seq<Seq<char>>, persisted: bool)
    requires
        trim(line).len() == 0 || starts_with(trim(line), "BUSID"@) || (tokens(trim(line)).len()
            < 4 && !starts_with(trim(line), "Connected:"@) && !starts_with(
            trim(line),
            "Persisted:"@,
        )),
    ensures
        parse_lines(seq![line] + rest, persisted) == parse_lines(rest, persisted),
{
    let t = trim(line);
    reveal_strlit("Connected:");
    reveal_strlit("Persisted:");
    reveal_strlit("BUSID");
    assert(!starts_with(t, "Connected:"@)) by {
        if starts_with(t, "Connected:"@) {
            assert(t.take(10)[0] == t[0]);
            assert(t[0] == 'C');
            if starts_with(t, "BUSID"@) {
                assert(t.take(5)[0] == t[0]);
            }
        }
    }
    assert(!starts_with(t, "Persisted:"@)) by {
        if starts_with(t, "Persisted:"@) {
            assert(t.take(10)[0] == t[0]);
            assert(t[0] == 'P');
            if starts_with(t, "BUSID"@) {
                assert(t.take(5)[0] == t[0]);
            }
        }
    }
    assert(section_after(line, persisted) == persisted);
    assert(line_records(line, persisted) =~= Seq::<DeviceView>::empty());
    assert((seq![line] + rest)[0] == line);
    assert((seq![line] + rest).drop_first() =~= rest);
    assert(Seq::<DeviceView>::empty() + parse_lines(rest, persisted) =~= parse_lines(
        rest,
        persisted,
    ));
}

/// A section header contributes no record and definitionally switches the
/// section flag: `Connected:` clears it and `Persisted:` sets it.
pub proof fn lemma_header_line(line: Seq<char>, rest: Seq<Seq<char>>, persisted: bool)
    requires
        starts_with(trim(line), "Connected:"@) || starts_with(trim(line), "Persisted:"@),
    ensures
        parse_lines(seq![line] + rest, persisted) == parse_lines(
            rest,
            starts_with(trim(line), "Persisted:"@),
        ),
{
    let t = trim(line);
    reveal_strlit("Connected:");
    reveal_strlit("Persisted:");
    assert(!(starts_with(t, "Connected:"@) && starts_with(t, "Persisted:"@))) by {
        if starts_with(t, "Connected:"@) && starts_with(t, "Persisted:"@) {
            assert(t.take(10)[0] == t[0]);
        }
    }
    assert(section_after(line, persisted) == starts_with(t, "Persisted:"@));
    assert(line_records(line, persisted) =~= Seq::<DeviceView>::empty());
    assert((seq![line] + rest)[0] == line);
    assert((seq![line] + rest).drop_first() =~= rest);
    assert(Seq::<DeviceView>::empty() + parse_lines(rest, section_after(line, persisted))
        =~= parse_lines(rest, section_after(line, persisted)));
}

/// Between section headers the flag is constant: if no line of `lines` is a
/// section header, every record parsed from them carries the flag in force.
/// So a record after a `Persisted:` header is persisted, and one before any
/// header, or after a `Connected:` header, is not.
pub proof fn lemma_records_carry_section_flag(lines: Seq<Seq<char>>, persisted: bool)
    requires
        forall|i: int|
            0 <= i < lines.len() ==> !starts_with(trim(#[trigger] lines[i]), "Connected:"@)
                && !starts_with(trim(lines[i]), "Persisted:"@),
    ensures
        forall|j: int|
            0 <= j < parse_lines(lines, persisted).len() ==> (#[trigger] parse_lines(
                lines,
                persisted,
            )[j]).persisted == persisted,
    decreases lines.len(),
{
    if lines.len() == 0 {
    } else {
        let head = line_records(lines[0], persisted);
        let tail = parse_lines(lines.drop_first(), section_after(lines[0], persisted));
        assert(section_after(lines[0], persisted) == persisted);
        assert forall|i: int| 0 <= i < lines.drop_first().len() implies !starts_with(
            trim(#[trigger] lines.drop_first()[i]),
            "Connected:"@,
        ) && !starts_with(trim(lines.drop_first()[i]), "Persisted:"@) by {
            assert(lines.drop_first()[i] == lines[i + 1]);
        }
        lemma_records_carry_section_flag(lines.drop_first(), persisted);
        assert forall|j: int| 0 <= j < parse_lines(lines, persisted).len() implies (
        #[trigger] parse_lines(lines, persisted)[j]).persisted == persisted by {
            if j < head.len() {
                assert(parse_lines(lines, persisted)[j] == head[j]);
            } else {
                assert(parse_lines(lines, persisted)[j] == tail[j - head.len()]);
            }
        }
    }
}

/// The section flag left behind by a sequence of lines, threaded in order.
pub open spec fn section_after_lines(lines: Seq<Seq<char>>, persisted: bool) -> bool
    decreases lines.len(),
{
    if lines.len() == 0 {
        persisted
    } else {
        section_after_lines(lines.drop_first(), section_after(lines[0], persisted))
    }
}

/// Output order equals input order, with no reordering and no
/// deduplication: the records of two runs of lines in a row are the records
/// of the first run followed by the records of the second, the latter
/// started from the flag the first run leaves behind.
pub proof fn lemma_parse_lines_append(ls1: Seq<Seq<char>>, ls2: Seq<Seq<char>>, persisted: bool)
    ensures
        parse_lines(ls1 + ls2, persisted) == parse_lines(ls1, persisted) + parse_lines(
            ls2,
            section_after_lines(ls1, persisted),
        ),
    decreases ls1.len(),
{
    if ls1.len() == 0 {
        assert(ls1 + ls2 =~= ls2);
        assert(parse_lines(ls1, persisted) =~= Seq::<DeviceView>::empty());
        assert(parse_lines(ls1, persisted) + parse_lines(ls2, persisted) =~= parse_lines(
            ls2,
            persisted,
        ));
    } else {
        let flag1 = section_after(ls1[0], persisted);
        assert((ls1 + ls2)[0] == ls1[0]);
        assert((ls1 + ls2).drop_first() =~= ls1.drop_first() + ls2);
        lemma_parse_lines_append(ls1.drop_first(), ls2, flag1);
        assert(parse_lines(ls1 + ls2, persisted) == line_records(ls1[0], persisted) + (
        parse_lines(ls1.drop_first(), flag1) + parse_lines(
            ls2,
            section_after_lines(ls1.drop_first(), flag1),
        )));
        assert(line_records(ls1[0], persisted) + (parse_lines(ls1.drop_first(), flag1)
            + parse_lines(ls2, section_after_lines(ls1.drop_first(), flag1))) =~= (line_records(
            ls1[0],
            persisted,
        ) + parse_lines(ls1.drop_first(), flag1)) + parse_lines(
            ls2,
            section_after_lines(ls1.drop_first(), flag1),
        ));
    }
}

} // verus!
