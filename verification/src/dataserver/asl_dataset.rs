//! The records of a recorded data set: lines of fields between commas.
use vstd::prelude::*;

verus! {

/// The part of a line from `start` up to `end`.
#[derive(Clone, Copy, Debug, PartialEq, Eq, Structural)]
pub struct Field {
    pub start: usize,
    pub end: usize,
}

impl Field {
    /// The characters of the field.
    pub open spec fn of(self, line: Seq<char>) -> Seq<char> {
        line.subrange(self.start as int, self.end as int)
    }

    /// Whether the field lies in the line.
    pub open spec fn within(self, line: Seq<char>) -> bool {
        self.start <= self.end <= line.len()
    }
}

/// Whether `fields` are the parts of the first `end` characters of a line between commas.
pub open spec fn splits(line: Seq<char>, end: int, fields: Seq<Field>) -> bool {
    &&& fields.len() >= 1
    &&& fields[0].start == 0
    &&& fields.last().end == end
    &&& forall|k: int| 0 <= k < fields.len() ==> (#[trigger] fields[k]).start <= fields[k].end <= end
    &&& forall|k: int|
        0 <= k < fields.len() - 1 ==> #[trigger] fields[k + 1].start == fields[k].end + 1 && line[fields[k].end as int]
            == ','
    &&& forall|k: int, i: int|
        0 <= k < fields.len() && fields[k].start <= i < (#[trigger] fields[k]).end ==> #[trigger] line[i] != ','
}

/// The fields of a line: its parts between commas, at least one.
pub fn split_fields(line: &[char]) -> (r: Vec<Field>)
    ensures
        splits(line@, line@.len() as int, r@),
        r@.len() == line@.filter(|c: char| c == ',').len() + 1,
{
    let n: usize = line.len();
    let mut fields: Vec<Field> = Vec::new();
    let mut start: usize = 0;
    let mut i: usize = 0;
    let ghost is_comma = |c: char| c == ',';
    proof {
        reveal(Seq::filter);
        assert(line@.take(0).filter(is_comma).len() == 0);
    }
    while i < n
        invariant
            start <= i <= n,
            n == line@.len(),
            is_comma == (|c: char| c == ','),
            fields@.len() == line@.take(i as int).filter(is_comma).len(),
            fields@.len() == 0 ==> start == 0,
            fields@.len() > 0 ==> {
                &&& splits(line@, start - 1, fields@)
                &&& start >= 1
                &&& line@[start - 1] == ','
            },
            forall|a: int| start <= a < i ==> #[trigger] line@[a] != ',',
        decreases n - i,
    {
        proof {
            crate::seqs::lemma_filter_take(line@, i as int, is_comma);
        }
        if line[i] == ',' {
            let ghost before = fields@;
            fields.push(Field { start, end: i });
            assert forall|k: int| 0 <= k < fields@.len() - 1 implies #[trigger] fields@[k + 1].start == fields@[k].end
                + 1 && line@[fields@[k].end as int] == ',' by {
                if k < before.len() - 1 {
                    assert(before[k + 1].start == before[k].end + 1);
                } else {
                    assert(before[k] == before.last());
                }
            }
            start = i + 1;
        }
        i = i + 1;
    }
    assert(line@.take(n as int) =~= line@);
    let ghost before = fields@;
    fields.push(Field { start, end: n });
    assert forall|k: int| 0 <= k < fields@.len() - 1 implies #[trigger] fields@[k + 1].start == fields@[k].end + 1
        && line@[fields@[k].end as int] == ',' by {
        if k < before.len() - 1 {
            assert(before[k + 1].start == before[k].end + 1);
        } else {
            assert(before[k] == before.last());
        }
    }
    fields
}

/// Number of fields of a record of the inertial sensor: time, turn rates, accelerations.
pub const IMU_FIELDS: usize = 7;

/// The fields of a record of the inertial sensor; nothing if there are too few.
pub fn imu_fields(line: &[char]) -> (r: Option<[Field; 7]>)
    ensures
        r is Some <==> line@.filter(|c: char| c == ',').len() + 1 >= IMU_FIELDS,
        r matches Some(f) ==> exists|fields: Seq<Field>|
            #[trigger] splits(line@, line@.len() as int, fields) && f@ == fields.take(7),
{
    let fields: Vec<Field> = split_fields(line);
    if fields.len() < IMU_FIELDS {
        None
    } else {
        let f: [Field; 7] = [fields[0], fields[1], fields[2], fields[3], fields[4], fields[5], fields[6]];
        assert(f@ =~= fields@.take(7));
        Some(f)
    }
}

/// Number of fields of a record of a reference pose: time, position, and the attitude as a
/// quaternion with the scalar first.
pub const POSE_FIELDS: usize = 8;

/// The fields of a record of a reference pose. The line must have them all.
pub fn pose_fields(line: &[char]) -> (r: [Field; 8])
    requires
        line@.filter(|c: char| c == ',').len() + 1 >= POSE_FIELDS,
    ensures
        exists|fields: Seq<Field>| #[trigger] splits(line@, line@.len() as int, fields) && r@ == fields.take(8),
{
    let fields: Vec<Field> = split_fields(line);
    let f: [Field; 8] = [
        fields[0],
        fields[1],
        fields[2],
        fields[3],
        fields[4],
        fields[5],
        fields[6],
        fields[7],
    ];
    assert(f@ =~= fields@.take(8));
    f
}

/// Whether a character is white space.
pub open spec fn white(c: char) -> bool {
    ||| '\u{9}' <= c <= '\u{d}'
    ||| c == ' '
    ||| c == '\u{85}'
    ||| c == '\u{a0}'
    ||| c == '\u{1680}'
    ||| '\u{2000}' <= c <= '\u{200a}'
    ||| c == '\u{2028}'
    ||| c == '\u{2029}'
    ||| c == '\u{202f}'
    ||| c == '\u{205f}'
    ||| c == '\u{3000}'
}

/// Decides whether a character is white space.
pub fn is_white(c: char) -> (r: bool)
    ensures
        r == white(c),
{
    ('\u{9}' <= c && c <= '\u{d}') || c == ' ' || c == '\u{85}' || c == '\u{a0}' || c == '\u{1680}' || ('\u{2000}'
        <= c && c <= '\u{200a}') || c == '\u{2028}' || c == '\u{2029}' || c == '\u{202f}' || c == '\u{205f}' || c
        == '\u{3000}'
}

/// The field without white space at its ends.
pub fn trimmed(line: &[char], field: Field) -> (r: Field)
    requires
        field.within(line@),
    ensures
        field.start <= r.start <= r.end <= field.end,
        forall|i: int| field.start <= i < r.start ==> white(#[trigger] line@[i]),
        forall|i: int| r.end <= i < field.end ==> white(#[trigger] line@[i]),
        r.start < r.end ==> !white(line@[r.start as int]) && !white(line@[r.end - 1]),
{
    let mut start: usize = field.start;
    while start < field.end && is_white(line[start])
        invariant
            field.within(line@),
            field.start <= start <= field.end,
            forall|i: int| field.start <= i < start ==> white(#[trigger] line@[i]),
        decreases field.end - start,
    {
        start = start + 1;
    }
    let mut end: usize = field.end;
    while start < end && is_white(line[end - 1])
        invariant
            field.within(line@),
            field.start <= start <= end <= field.end,
            start < field.end ==> !white(line@[start as int]),
            forall|i: int| end <= i < field.end ==> white(#[trigger] line@[i]),
        decreases end - start,
    {
        end = end - 1;
    }
    Field { start, end }
}

/// The fields of a record of a camera: the time, and the name of the image without white
/// space at its ends. The line must have both.
pub fn image_fields(line: &[char]) -> (r: (Field, Field))
    requires
        line@.contains(','),
    ensures
        exists|fields: Seq<Field>|
            {
                &&& #[trigger] splits(line@, line@.len() as int, fields)
                &&& fields.len() >= 2
                &&& r.0 == fields[0]
                &&& fields[1].start <= r.1.start <= r.1.end <= fields[1].end
                &&& forall|i: int| fields[1].start <= i < r.1.start ==> white(#[trigger] line@[i])
                &&& forall|i: int| r.1.end <= i < fields[1].end ==> white(#[trigger] line@[i])
                &&& r.1.start < r.1.end ==> !white(line@[r.1.start as int]) && !white(line@[r.1.end - 1])
            },
{
    let fields: Vec<Field> = split_fields(line);
    proof {
        if fields@.len() < 2 {
            let i = choose|i: int| 0 <= i < line@.len() && line@[i] == ',';
            assert(fields@[0].start <= i < fields@[0].end);
        }
    }
    let name: Field = trimmed(line, fields[1]);
    (fields[0], name)
}

/// Splitting loses nothing: the fields and the commas between them are the line.
pub proof fn law_fields_cover_the_line(line: Seq<char>, fields: Seq<Field>, i: int)
    requires
        splits(line, line.len() as int, fields),
        0 <= i < line.len(),
    ensures
        line[i] == ',' <==> exists|k: int| 0 <= k < fields.len() - 1 && i == (#[trigger] fields[k]).end,
        line[i] != ',' <==> exists|k: int| 0 <= k < fields.len() && (#[trigger] fields[k]).start <= i < fields[k].end,
{
    let k = lemma_field_of(line, fields, i, fields.len() as int);
    if i < fields[k].end {
        assert(line[i] != ',');
        assert forall|l: int| 0 <= l < fields.len() - 1 implies i != (#[trigger] fields[l]).end by {
            let next = fields[l + 1].start;
            assert(next == fields[l].end + 1);
            assert(line[fields[l].end as int] == ',');
        }
    } else {
        assert(k < fields.len() - 1);
        assert(fields[k + 1].start == fields[k].end + 1 && line[fields[k].end as int] == ',');
    }
}

/// The field that a position lies in or just behind, among the first `n` fields.
proof fn lemma_field_of(line: Seq<char>, fields: Seq<Field>, i: int, n: int) -> (k: int)
    requires
        splits(line, line.len() as int, fields),
        0 <= i < line.len(),
        1 <= n <= fields.len(),
        i <= fields[n - 1].end,
    ensures
        0 <= k < n,
        fields[k].start <= i <= fields[k].end,
    decreases n,
{
    if fields[n - 1].start <= i {
        n - 1
    } else {
        assert(n >= 2);
        assert(fields[(n - 2) + 1].start == fields[n - 2].end + 1);
        lemma_field_of(line, fields, i, n - 1)
    }
}

/// A line has one field more than it has commas.
pub proof fn law_commas_are_counted(line: Seq<char>, fields: Seq<Field>)
    requires
        splits(line, line.len() as int, fields),
    ensures
        fields.len() == line.filter(|c: char| c == ',').len() + 1,
{
    lemma_commas_before(line, line.len() as int, fields);
    assert(line.take(line.len() as int) =~= line);
}

proof fn lemma_commas_before(line: Seq<char>, end: int, fields: Seq<Field>)
    requires
        0 <= end <= line.len(),
        splits(line, end, fields),
    ensures
        fields.len() == line.take(end).filter(|c: char| c == ',').len() + 1,
    decreases fields.len(),
{
    let is_comma = |c: char| c == ',';
    let n = fields.len() as int;
    assert(fields[n - 1] == fields.last());
    lemma_no_commas_between(line, fields[n - 1].start as int, end);
    if n == 1 {
        reveal(Seq::filter);
        assert(line.take(0).filter(is_comma).len() == 0);
    } else {
        let rest = fields.drop_last();
        assert(fields[(n - 2) + 1].start == fields[n - 2].end + 1);
        assert forall|k: int| 0 <= k < rest.len() implies (#[trigger] rest[k]).start <= rest[k].end <= rest.last().end by {
            lemma_ends_ascend(line, end, fields, k, n - 2);
        }
        assert forall|k: int| 0 <= k < rest.len() - 1 implies #[trigger] rest[k + 1].start == rest[k].end + 1
            && line[rest[k].end as int] == ',' by {
            assert(fields[k + 1].start == fields[k].end + 1);
        }
        assert(splits(line, rest.last().end as int, rest));
        lemma_commas_before(line, rest.last().end as int, rest);
        crate::seqs::lemma_filter_take(line, rest.last().end as int, is_comma);
    }
}

proof fn lemma_ends_ascend(line: Seq<char>, end: int, fields: Seq<Field>, k: int, l: int)
    requires
        splits(line, end, fields),
        0 <= k <= l < fields.len(),
    ensures
        fields[k].end <= fields[l].end,
    decreases l - k,
{
    if k < l {
        assert(fields[(l - 1) + 1].start == fields[l - 1].end + 1);
        lemma_ends_ascend(line, end, fields, k, l - 1);
    }
}

proof fn lemma_no_commas_between(line: Seq<char>, a: int, b: int)
    requires
        0 <= a <= b <= line.len(),
        forall|i: int| a <= i < b ==> #[trigger] line[i] != ',',
    ensures
        line.take(a).filter(|c: char| c == ',').len() == line.take(b).filter(|c: char| c == ',').len(),
    decreases b - a,
{
    if a < b {
        lemma_no_commas_between(line, a, b - 1);
        crate::seqs::lemma_filter_take(line, b - 1, |c: char| c == ',');
    }
}

/// A record of the inertial sensor is read where the line has six commas or more: its first field
/// starts with the line, each further one behind the next comma, and none holds a comma; the last
/// one ends at a comma or with the line.
pub proof fn law_sensor_record_is_cut_at_its_commas(line: &[char], r: Option<[Field; 7]>, k: int, i: int)
    requires
        call_ensures(imu_fields, (line,), r),
        0 <= k < 7,
    ensures
        r is None <==> line@.filter(|c: char| c == ',').len() < 6,
        r matches Some(f) ==> {
            &&& f@[0].start == 0
            &&& f@[k].start <= f@[k].end <= line@.len()
            &&& k > 0 ==> f@[k].start == f@[k - 1].end + 1
            &&& f@[k].end < line@.len() ==> line@[f@[k].end as int] == ','
            &&& k < 6 ==> f@[k].end < line@.len()
            &&& f@[k].start <= i < f@[k].end ==> line@[i] != ','
        },
{
    if let Some(f) = r {
        let fields = choose|fields: Seq<Field>|
            #[trigger] splits(line@, line@.len() as int, fields) && f@ == fields.take(7);
        law_commas_are_counted(line@, fields);
        lemma_cut_at_commas(line@, fields, k);
        assert(f@[0] == fields[0] && f@[k] == fields[k]);
        if k > 0 {
            assert(f@[k - 1] == fields[k - 1]);
            assert(fields[(k - 1) + 1].start == fields[k - 1].end + 1);
        }
        if k < 6 {
            lemma_cut_at_commas(line@, fields, k + 1);
            assert(fields[k + 1].start == fields[k].end + 1);
        }
    }
}

/// A record of a reference pose is cut at its commas in the same way, into eight fields.
pub proof fn law_pose_record_is_cut_at_its_commas(line: &[char], r: [Field; 8], k: int, i: int)
    requires
        line@.filter(|c: char| c == ',').len() >= 7,
        call_ensures(pose_fields, (line,), r),
        0 <= k < 8,
    ensures
        r@[0].start == 0,
        r@[k].start <= r@[k].end <= line@.len(),
        k > 0 ==> r@[k].start == r@[k - 1].end + 1,
        r@[k].end < line@.len() ==> line@[r@[k].end as int] == ',',
        k < 7 ==> r@[k].end < line@.len(),
        r@[k].start <= i < r@[k].end ==> line@[i] != ',',
{
    let fields = choose|fields: Seq<Field>|
        #[trigger] splits(line@, line@.len() as int, fields) && r@ == fields.take(8);
    law_commas_are_counted(line@, fields);
    lemma_cut_at_commas(line@, fields, k);
    assert(r@[0] == fields[0] && r@[k] == fields[k]);
    if k > 0 {
        assert(r@[k - 1] == fields[k - 1]);
        assert(fields[(k - 1) + 1].start == fields[k - 1].end + 1);
    }
    if k < 7 {
        lemma_cut_at_commas(line@, fields, k + 1);
        assert(fields[k + 1].start == fields[k].end + 1);
    }
}

proof fn lemma_cut_at_commas(line: Seq<char>, fields: Seq<Field>, k: int)
    requires
        splits(line, line.len() as int, fields),
        0 <= k < fields.len(),
    ensures
        fields[k].end < line.len() ==> line[fields[k].end as int] == ',',
        fields[k].start <= fields[k].end <= line.len(),
{
    if k < fields.len() - 1 {
        assert(fields[k + 1].start == fields[k].end + 1);
    }
}

/// The time of a record of a camera is what stands before the first comma. The name of its image
/// stands behind that comma and before the next one; only white space stands around it there, and
/// it does not start or end with any.
pub proof fn law_image_record_has_time_and_name(line: &[char], r: (Field, Field), i: int)
    requires
        line@.contains(','),
        call_ensures(image_fields, (line,), r),
    ensures
        r.0.start == 0 && r.0.end < line@.len() && line@[r.0.end as int] == ',',
        0 <= i < r.0.end ==> line@[i] != ',',
        r.0.end < r.1.start <= r.1.end <= line@.len(),
        r.0.end < i < r.1.start ==> white(line@[i]),
        r.1.start <= i < r.1.end ==> line@[i] != ',',
        r.1.end <= i < line@.len() && !white(line@[i]) ==> exists|j: int|
            r.1.end <= j <= i && #[trigger] line@[j] == ',',
        r.1.start < r.1.end ==> !white(line@[r.1.start as int]) && !white(line@[r.1.end - 1]),
{
    let fields = choose|fields: Seq<Field>|
        {
            &&& #[trigger] splits(line@, line@.len() as int, fields)
            &&& fields.len() >= 2
            &&& r.0 == fields[0]
            &&& fields[1].start <= r.1.start <= r.1.end <= fields[1].end
            &&& forall|i: int| fields[1].start <= i < r.1.start ==> white(#[trigger] line@[i])
            &&& forall|i: int| r.1.end <= i < fields[1].end ==> white(#[trigger] line@[i])
            &&& r.1.start < r.1.end ==> !white(line@[r.1.start as int]) && !white(line@[r.1.end - 1])
        };
    assert(fields[0int + 1].start == fields[0].end + 1);
    lemma_cut_at_commas(line@, fields, 0);
    lemma_cut_at_commas(line@, fields, 1);
    assert(fields[1].end < line@.len() ==> line@[fields[1].end as int] == ',');
}

/// Blanks, tabulators and line ends are white space; nothing that is printed with ink is, among
/// the characters of one byte below the last.
pub proof fn law_white_space_leaves_no_ink(c: char, r: bool)
    requires
        call_ensures(is_white, (c,), r),
    ensures
        c == ' ' || c == '\t' || c == '\n' || c == '\r' ==> r,
        '\u{21}' <= c <= '\u{7e}' ==> !r,
{
}

} // verus!
