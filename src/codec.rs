//! Text of the device and viewer protocols: sensor lines, commands, framing.
use vstd::prelude::*;

verus! {

/// `p` is a prefix of `s`.
pub open spec fn starts_with(s: Seq<char>, p: Seq<char>) -> bool {
    p.len() <= s.len() && s.subrange(0, p.len() as int) == p
}

/// `p` occurs somewhere in `s`.
pub open spec fn contains(s: Seq<char>, p: Seq<char>) -> bool {
    exists|i: int| 0 <= i && i + p.len() <= s.len() && #[trigger] s.subrange(i, i + p.len()) == p
}

/// The tag that opens every sensor line.
pub open spec fn sensor_tag() -> Seq<char> {
    seq!['S', 'E', 'N', 'S', 'O', 'R', ':']
}

/// `s` with every leading copy of the sensor tag removed.
pub open spec fn strip_tags(s: Seq<char>) -> Seq<char>
    decreases s.len(),
{
    if starts_with(s, sensor_tag()) {
        strip_tags(s.subrange(sensor_tag().len() as int, s.len() as int))
    } else {
        s
    }
}

/// The pieces of `s` between occurrences of `d`, in order; an empty text is one
/// empty piece.
pub open spec fn split_on(s: Seq<char>, d: char) -> Seq<Seq<char>>
    decreases s.len(),
{
    if s.len() == 0 {
        seq![Seq::empty()]
    } else {
        let rest = split_on(s.drop_last(), d);
        if s.last() == d {
            rest.push(Seq::empty())
        } else {
            rest.update(rest.len() - 1, rest.last().push(s.last()))
        }
    }
}

/// The character sequences that a list of strings holds.
pub open spec fn texts(v: Seq<String>) -> Seq<Seq<char>> {
    v.map_values(|t: String| t@)
}

proof fn lemma_split_nonempty(s: Seq<char>, d: char)
    ensures
        split_on(s, d).len() >= 1,
    decreases s.len(),
{
    if s.len() > 0 {
        lemma_split_nonempty(s.drop_last(), d);
    }
}

/// Whether `s` begins with `p`.
pub fn has_prefix(s: &str, p: &str) -> (r: bool)
    ensures
        r == starts_with(s@, p@),
{
    let n = s.unicode_len();
    let m = p.unicode_len();
    if m > n {
        return false;
    }
    let mut i: usize = 0;
    while i < m
        invariant
            m == p@.len(),
            n == s@.len(),
            m <= n,
            i <= m,
            forall|k: int| 0 <= k < i ==> s@[k] == p@[k],
        decreases m - i,
    {
        if s.get_char(i) != p.get_char(i) {
            assert(s@.subrange(0, m as int)[i as int] != p@[i as int]);
            return false;
        }
        i = i + 1;
    }
    assert(s@.subrange(0, m as int) =~= p@);
    true
}

/// Whether `p` occurs in `s`.
pub fn has_substring(s: &str, p: &str) -> (r: bool)
    ensures
        r == contains(s@, p@),
{
    let n = s.unicode_len();
    let m = p.unicode_len();
    if m > n {
        return false;
    }
    let mut i: usize = 0;
    loop
        invariant
            m == p@.len(),
            n == s@.len(),
            m <= n,
            i <= n - m,
            forall|k: int| 0 <= k < i ==> #[trigger] s@.subrange(k, k + m) != p@,
        decreases n - m - i,
    {
        let window = s.substring_char(i, i + m);
        assert(window@.subrange(0, m as int) =~= window@);
        if has_prefix(window, p) {
            return true;
        }
        if i == n - m {
            assert forall|k: int| 0 <= k && k + m <= n implies #[trigger] s@.subrange(k, k + m) != p@ by {
                assert(k < i || k == i);
            }
            return false;
        }
        i = i + 1;
    }
}

/// `line` with every leading sensor tag removed.
pub fn strip_sensor_tag(line: &str) -> (r: &str)
    ensures
        r@ == strip_tags(line@),
{
    let tag = "SENSOR:";
    proof {
        reveal_strlit("SENSOR:");
    }
    assert(tag@ =~= sensor_tag());
    let mut rest = line;
    while has_prefix(rest, tag)
        invariant
            tag@ == sensor_tag(),
            strip_tags(rest@) == strip_tags(line@),
        decreases rest@.len(),
    {
        let n = rest.unicode_len();
        rest = rest.substring_char(7, n);
    }
    rest
}

/// The comma-separated pieces of `s`.
pub fn split_fields(s: &str) -> (r: Vec<String>)
    ensures
        texts(r@) == split_on(s@, ','),
{
    let n = s.unicode_len();
    let mut out: Vec<String> = Vec::new();
    let mut start: usize = 0;
    let mut i: usize = 0;
    assert(texts(out@) =~= Seq::<Seq<char>>::empty());
    assert(s@.subrange(0, 0) =~= Seq::<char>::empty());
    assert(texts(out@).push(s@.subrange(0, 0)) =~= split_on(s@.subrange(0, 0), ','));
    while i < n
        invariant
            n == s@.len(),
            start <= i <= n,
            texts(out@).push(s@.subrange(start as int, i as int)) == split_on(s@.subrange(0, i as int), ','),
        decreases n - i,
    {
        let c = s.get_char(i);
        let ghost pre = s@.subrange(0, i as int);
        let ghost next = s@.subrange(0, i + 1);
        assert(next.drop_last() =~= pre);
        assert(next.last() == c);
        if c == ',' {
            let piece = String::from_str(s.substring_char(start, i));
            let ghost old_out = out@;
            out.push(piece);
            assert(texts(out@) =~= texts(old_out).push(piece@));
            assert(s@.subrange(i + 1, i + 1) =~= Seq::<char>::empty());
            start = i + 1;
        } else {
            assert(s@.subrange(start as int, i + 1) =~= s@.subrange(start as int, i as int).push(c));
        }
        i = i + 1;
    }
    assert(s@.subrange(0, n as int) =~= s@);
    let last = String::from_str(s.substring_char(start, n));
    let ghost old_out = out@;
    out.push(last);
    assert(texts(out@) =~= texts(old_out).push(last@));
    out
}

/// Number of comma-separated fields that a sensor line must carry.
pub const FIELD_COUNT: usize = 9;

/// Number of analyte channels, in order no2, eth, voc, co, co_mics, eth_mics,
/// voc_mics; the state code and the level code follow them.
pub const CHANNEL_COUNT: usize = 7;

/// Number of primary analyte channels; they lead the channel list.
pub const PRIMARY_CHANNELS: usize = 4;

pub open spec fn is_digit(c: char) -> bool {
    '0' <= c && c <= '9'
}

/// A non-empty run of decimal digits.
pub open spec fn all_digits(s: Seq<char>) -> bool {
    s.len() > 0 && forall|i: int| 0 <= i < s.len() ==> is_digit(#[trigger] s[i])
}

/// The number that a run of decimal digits spells.
pub open spec fn digits_value(s: Seq<char>) -> int
    decreases s.len(),
{
    if s.len() == 0 {
        0
    } else {
        digits_value(s.drop_last()) * 10 + (s.last() as int - '0' as int)
    }
}

/// The integer that `s` spells: an optional `+` or `-`, then decimal digits,
/// nothing else.
pub open spec fn int_text(s: Seq<char>) -> Option<int> {
    if s.len() > 0 && (s[0] == '-' || s[0] == '+') {
        if all_digits(s.drop_first()) {
            if s[0] == '-' {
                Some(-digits_value(s.drop_first()))
            } else {
                Some(digits_value(s.drop_first()))
            }
        } else {
            None
        }
    } else if all_digits(s) {
        Some(digits_value(s))
    } else {
        None
    }
}

/// The value of a status-code field: the integer it spells when that fits in
/// an `i32`, and 0 otherwise.
pub open spec fn code_value(s: Seq<char>) -> int {
    match int_text(s) {
        Some(v) => if i32::MIN <= v <= i32::MAX {
            v
        } else {
            0
        },
        None => 0,
    }
}

/// The value of a status-code field (see `code_value`).
pub fn parse_code(t: &str) -> (r: i32)
    ensures
        r as int == code_value(t@),
{
    let n = t.unicode_len();
    let mut neg = false;
    let mut start: usize = 0;
    if n > 0 {
        let c0 = t.get_char(0);
        if c0 == '-' {
            neg = true;
            start = 1;
        } else if c0 == '+' {
            start = 1;
        }
    }
    let ghost ds = t@.subrange(start as int, n as int);
    proof {
        if start == 1 {
            assert(t@.drop_first() =~= ds);
        } else {
            assert(t@ =~= ds);
        }
    }
    if start == n {
        return 0;
    }
    let mut acc: u64 = 0;
    let mut big = false;
    let mut i: usize = start;
    while i < n
        invariant
            n == t@.len(),
            start < n,
            start <= i <= n,
            ds == t@.subrange(start as int, n as int),
            start == 1 <==> (t@[0] == '-' || t@[0] == '+'),
            start == 0 || start == 1,
            neg <==> t@[0] == '-',
            start == 0 ==> t@ == ds,
            start == 1 ==> t@.drop_first() == ds,
            forall|k: int| start <= k < i ==> is_digit(#[trigger] t@[k]),
            !big ==> acc == digits_value(t@.subrange(start as int, i as int)) && acc <= 2147483648,
            big ==> digits_value(t@.subrange(start as int, i as int)) > 2147483648,
        decreases n - i,
    {
        let c = t.get_char(i);
        if !('0' <= c && c <= '9') {
            assert(!is_digit(ds[i - start]));
            return 0;
        }
        let ghost pre = t@.subrange(start as int, i as int);
        assert(t@.subrange(start as int, i + 1).drop_last() =~= pre);
        let d = (c as u32 - '0' as u32) as u64;
        if !big {
            let v = acc * 10 + d;
            if v > 2147483648 {
                big = true;
            } else {
                acc = v;
            }
        }
        i = i + 1;
    }
    assert(t@.subrange(start as int, n as int) =~= ds);
    assert(all_digits(ds));
    if big {
        0
    } else if neg {
        (0 - (acc as i64)) as i32
    } else if acc > 2147483647 {
        0
    } else {
        acc as i32
    }
}

/// A point in time: whole seconds and nanoseconds since the Unix epoch.
#[derive(Clone, Copy, Debug, PartialEq, Eq)]
pub struct Timestamp {
    pub secs: i64,
    pub nanos: u32,
}

/// One decoded sample of the device: the raw text of each analyte channel
/// (numeric parsing of those is left to the consumer, with
/// `channel_fallback` for text that is no number) and the two status codes.
pub struct SensorRecord {
    pub timestamp: Timestamp,
    pub channels: Vec<String>,
    pub state: i32,
    pub level: i32,
}

/// The fields of a sensor line, after its tag.
pub open spec fn sensor_fields(line: Seq<char>) -> Seq<Seq<char>> {
    split_on(strip_tags(line), ',')
}

/// `r` is the record for `line` received at `at`.
pub open spec fn record_of(r: SensorRecord, line: Seq<char>, at: Timestamp) -> bool {
    let f = sensor_fields(line);
    &&& r.timestamp == at
    &&& texts(r.channels@) == f.subrange(0, CHANNEL_COUNT as int)
    &&& r.state as int == code_value(f[7])
    &&& r.level as int == code_value(f[8])
}

/// Decodes a sensor line received at `at`. A line with fewer than nine fields
/// gives `None`; any other gives a record, whatever its fields hold.
pub fn decode_reading(line: &str, at: Timestamp) -> (r: Option<SensorRecord>)
    ensures
        r.is_some() <==> sensor_fields(line@).len() >= FIELD_COUNT,
        r matches Some(rec) ==> record_of(rec, line@, at),
{
    let content = strip_sensor_tag(line);
    let fields = split_fields(content);
    assert(fields@.len() == texts(fields@).len());
    if fields.len() < FIELD_COUNT {
        return None;
    }
    let mut channels: Vec<String> = Vec::new();
    let mut k: usize = 0;
    while k < CHANNEL_COUNT
        invariant
            k <= CHANNEL_COUNT,
            fields@.len() >= FIELD_COUNT,
            texts(fields@) == sensor_fields(line@),
            texts(channels@) == texts(fields@).subrange(0, k as int),
        decreases CHANNEL_COUNT - k,
    {
        let t = fields[k].clone();
        let ghost before = channels@;
        channels.push(t);
        assert(texts(channels@) =~= texts(before).push(t@));
        assert(texts(fields@).subrange(0, k + 1) =~= texts(fields@).subrange(0, k as int).push(fields@[k as int]@));
        k = k + 1;
    }
    let state = parse_code(fields[7].as_str());
    let level = parse_code(fields[8].as_str());
    assert(texts(fields@)[7] == fields@[7]@);
    assert(texts(fields@)[8] == fields@[8]@);
    Some(SensorRecord { timestamp: at, channels, state, level })
}

/// The value that channel `i` takes when its text is no number: -1 for the
/// primary channels, 0 for the others.
pub fn channel_fallback(i: usize) -> (r: i32)
    requires
        i < CHANNEL_COUNT,
    ensures
        r == (if i < PRIMARY_CHANNELS { -1i32 } else { 0i32 }),
{
    if i < PRIMARY_CHANNELS {
        -1
    } else {
        0
    }
}

/// What a line from the device is.
#[derive(Clone, Copy, Debug, PartialEq, Eq, Structural)]
pub enum DeviceLine {
    /// It opens with the sensor tag.
    Sensor,
    /// It announces that the device is ready.
    Ready,
    /// Anything else.
    Other,
}

/// The kind of a device line: a sensor line opens with the tag; a readiness
/// line holds `CONNECTED` or `Connected`.
pub open spec fn device_line_kind(l: Seq<char>) -> DeviceLine {
    if starts_with(l, sensor_tag()) {
        DeviceLine::Sensor
    } else if contains(l, "CONNECTED"@) || contains(l, "Connected"@) {
        DeviceLine::Ready
    } else {
        DeviceLine::Other
    }
}

/// The kind of a line from the device.
pub fn classify_device_line(line: &str) -> (r: DeviceLine)
    ensures
        r == device_line_kind(line@),
{
    let tag = "SENSOR:";
    proof {
        reveal_strlit("SENSOR:");
    }
    assert(tag@ =~= sensor_tag());
    if has_prefix(line, tag) {
        DeviceLine::Sensor
    } else if has_substring(line, "CONNECTED") || has_substring(line, "Connected") {
        DeviceLine::Ready
    } else {
        DeviceLine::Other
    }
}

/// A viewer line is a command for the device when it opens with
/// `START_SAMPLING` or `STOP_SAMPLING`.
pub open spec fn is_command_text(l: Seq<char>) -> bool {
    starts_with(l, "START_SAMPLING"@) || starts_with(l, "STOP_SAMPLING"@)
}

/// Whether a line from a viewer is a command for the device.
pub fn is_command(line: &str) -> (r: bool)
    ensures
        r == is_command_text(line@),
{
    has_prefix(line, "START_SAMPLING") || has_prefix(line, "STOP_SAMPLING")
}

/// `msg` as it goes on the wire: followed by a newline.
pub fn frame(msg: &str) -> (r: String)
    ensures
        r@ == msg@.push('\n'),
{
    let mut out = String::from_str(msg);
    proof {
        reveal_strlit("\n");
    }
    out.append("\n");
    assert(out@ =~= msg@.push('\n'));
    out
}

/// The pieces of `fs` with `d` between each two.
pub open spec fn join_on(fs: Seq<Seq<char>>, d: char) -> Seq<char>
    decreases fs.len(),
{
    if fs.len() == 0 {
        Seq::empty()
    } else if fs.len() == 1 {
        fs[0]
    } else {
        join_on(fs.drop_last(), d).push(d) + fs.last()
    }
}

/// The sensor line that carries the fields `fs`.
pub open spec fn sensor_line(fs: Seq<Seq<char>>) -> Seq<char> {
    sensor_tag() + join_on(fs, ',')
}

/// Text that can spell a number: digits, signs, a point and exponent marks.
pub open spec fn numeric_text(f: Seq<char>) -> bool {
    f.len() > 0 && forall|i: int|
        0 <= i < f.len() ==> {
            let c = #[trigger] f[i];
            is_digit(c) || c == '.' || c == '-' || c == '+' || c == 'e' || c == 'E'
        }
}

proof fn lemma_split_extend(a: Seq<char>, b: Seq<char>, d: char)
    requires
        forall|j: int| 0 <= j < b.len() ==> b[j] != d,
    ensures
        split_on(a + b, d) == split_on(a, d).update(
            split_on(a, d).len() - 1,
            split_on(a, d).last() + b,
        ),
    decreases b.len(),
{
    lemma_split_nonempty(a, d);
    let r = split_on(a, d);
    if b.len() == 0 {
        assert(a + b =~= a);
        assert(r.update(r.len() - 1, r.last() + b) =~= r);
    } else {
        let b0 = b.drop_last();
        lemma_split_extend(a, b0, d);
        assert((a + b).drop_last() =~= a + b0);
        assert((a + b).last() == b.last());
        assert(b0.push(b.last()) =~= b);
        let r0 = split_on(a + b0, d);
        assert(r0 =~= r.update(r.len() - 1, r.last() + b0));
        assert(r0.update(r0.len() - 1, r0.last().push(b.last())) =~= r.update(r.len() - 1, r.last() + b));
    }
}

proof fn lemma_split_join(fs: Seq<Seq<char>>, d: char)
    requires
        fs.len() >= 1,
        forall|i: int, j: int| 0 <= i < fs.len() && 0 <= j < fs[i].len() ==> fs[i][j] != d,
    ensures
        split_on(join_on(fs, d), d) == fs,
    decreases fs.len(),
{
    if fs.len() == 1 {
        let e = Seq::<char>::empty();
        lemma_split_extend(e, fs[0], d);
        assert(e + fs[0] =~= fs[0]);
        assert(split_on(e, d).update(0, split_on(e, d).last() + fs[0]) =~= fs);
    } else {
        let init = fs.drop_last();
        assert forall|i: int, j: int| 0 <= i < init.len() && 0 <= j < init[i].len() implies init[i][j] != d by {
            assert(init[i] == fs[i]);
        }
        lemma_split_join(init, d);
        let a = join_on(init, d).push(d);
        assert(a.drop_last() =~= join_on(init, d));
        assert(split_on(a, d) == init.push(Seq::<char>::empty()));
        assert forall|j: int| 0 <= j < fs.last().len() implies fs.last()[j] != d by {
            assert(fs.last() == fs[fs.len() - 1]);
        }
        lemma_split_extend(a, fs.last(), d);
        let r = split_on(a, d);
        assert(r.update(r.len() - 1, r.last() + fs.last()) =~= fs);
    }
}

proof fn lemma_join_starts_with_first(fs: Seq<Seq<char>>, d: char, k: int)
    requires
        fs.len() >= 1,
        0 <= k < fs[0].len(),
    ensures
        k < join_on(fs, d).len(),
        join_on(fs, d)[k] == fs[0][k],
    decreases fs.len(),
{
    if fs.len() > 1 {
        let init = fs.drop_last();
        assert(init[0] == fs[0]);
        lemma_join_starts_with_first(init, d, k);
    }
}

/// A sensor line made of nine numeric fields decodes to those fields: the
/// record's channels are the first seven texts, and its status codes are the
/// integers that the last two spell (0 where one spells none).
pub proof fn lemma_sensor_line_round_trip(fs: Seq<Seq<char>>, rec: SensorRecord, at: Timestamp)
    requires
        fs.len() == FIELD_COUNT,
        forall|i: int| 0 <= i < fs.len() ==> numeric_text(#[trigger] fs[i]),
    ensures
        device_line_kind(sensor_line(fs)) == DeviceLine::Sensor,
        sensor_fields(sensor_line(fs)) == fs,
        record_of(rec, sensor_line(fs), at) ==> {
            &&& texts(rec.channels@) == fs.subrange(0, CHANNEL_COUNT as int)
            &&& rec.state as int == code_value(fs[7])
            &&& rec.level as int == code_value(fs[8])
            &&& rec.timestamp == at
        },
{
    let j = join_on(fs, ',');
    let line = sensor_line(fs);
    assert(line.subrange(0, sensor_tag().len() as int) =~= sensor_tag());
    assert(line.subrange(sensor_tag().len() as int, line.len() as int) =~= j);
    assert(numeric_text(fs[0]));
    lemma_join_starts_with_first(fs, ',', 0);
    assert(j[0] == fs[0][0]);
    assert(!starts_with(j, sensor_tag())) by {
        if starts_with(j, sensor_tag()) {
            assert(j.subrange(0, 7)[0] == 'S');
        }
    }
    assert(strip_tags(j) == j);
    assert(strip_tags(line) == j);
    assert forall|i: int, k: int| 0 <= i < fs.len() && 0 <= k < fs[i].len() implies fs[i][k] != ',' by {
        assert(numeric_text(fs[i]));
    }
    lemma_split_join(fs, ',');
}

} // verus!
