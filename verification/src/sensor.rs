use vstd::prelude::*;
use crate::decimal::parse_decimal;
use crate::decimal::parse_milli;
use crate::decimal::all_digits;
use crate::decimal::is_number;
use crate::decimal::whole_of;
use crate::text::lowered;
use crate::text::chars_of;
use crate::text::count_of;
use crate::text::lemma_split_shape;
use crate::text::copy_range;
use crate::text::split;
use crate::text::split_bounds;
use crate::text::str_eq;
use crate::text::trim;
use crate::text::trim_bounds;

verus! {

/// The fewest fields that a sensor row holds: name, value, unit, status and
/// six thresholds.
pub const ROW_FIELDS: usize = 10;

/// The six thresholds of a sensor, each in thousandths of the sensor's unit
/// and absent where the controller reports none.
#[derive(Debug, Clone, Copy, PartialEq)]
pub struct Thresholds {
    /// Lower non-recoverable.
    pub lnr: Option<i64>,
    /// Lower critical.
    pub lc: Option<i64>,
    /// Lower non-critical.
    pub lnc: Option<i64>,
    /// Upper non-critical.
    pub unc: Option<i64>,
    /// Upper critical.
    pub uc: Option<i64>,
    /// Upper non-recoverable.
    pub unr: Option<i64>,
}

/// One row of the controller's sensor table. Numbers are kept as whole
/// thousandths: a value of `34.5` is held as `34500`, and a value too large
/// to be held is held as the largest that can be.
#[derive(Debug, PartialEq)]
pub struct SensorResult {
    pub sensor_name: String,
    /// The reading; `None` where the row gives no number.
    pub value: Option<i64>,
    pub unit: Option<String>,
    pub status: Option<String>,
    pub thresholds: Thresholds,
}

/// What a sensor row says, as mathematical values.
pub ghost struct Reading {
    pub name: Seq<char>,
    pub value: Option<i64>,
    pub unit: Option<Seq<char>>,
    pub status: Option<Seq<char>>,
    pub thresholds: Thresholds,
}

/// The text that an optional string holds, if any.
pub open spec fn text_of(s: Option<String>) -> Option<Seq<char>> {
    match s {
        Some(t) => Some(t@),
        None => None,
    }
}

impl View for SensorResult {
    type V = Reading;

    open spec fn view(&self) -> Reading {
        Reading {
            name: self.sensor_name@,
            value: self.value,
            unit: text_of(self.unit),
            status: text_of(self.status),
            thresholds: self.thresholds,
        }
    }
}

/// Why a row could not be read.
#[derive(Debug)]
pub enum ParseError {
    /// The row has fewer fields than a sensor row holds.
    InvalidFormat,
    /// A field could not be read; the text says which.
    ParseFailure(String),
}

/// The words that open the text of a `ParseFailure`.
pub open spec fn failure_prefix() -> Seq<char> {
    "Parse failed: "@
}

impl ParseError {
    /// The error as text for a log line.
    pub open spec fn text(self) -> Seq<char> {
        match self {
            ParseError::InvalidFormat => "Invalid sensor data format"@,
            ParseError::ParseFailure(s) => failure_prefix() + s@,
        }
    }

    /// Renders the error as text for a log line.
    pub fn to_string(&self) -> (s: String)
        ensures
            s@ == self.text(),
    {
        match self {
            ParseError::InvalidFormat => "Invalid sensor data format".to_owned(),
            ParseError::ParseFailure(why) => {
                let mut s = "Parse failed: ".to_owned();
                s.append(why.as_str());
                s
            },
        }
    }
}

/// The token with which the controller marks a field as not applicable.
pub open spec fn not_applicable() -> Seq<char> {
    seq!['n', 'a']
}

/// What an optional text field holds: nothing where it is empty or the
/// not-applicable token, else the field itself.
pub open spec fn optional_text(field: Seq<char>) -> Option<Seq<char>> {
    if field == not_applicable() || field.len() == 0 {
        None
    } else {
        Some(field)
    }
}

/// The fields of a row: the stretches between `|`, each trimmed.
pub open spec fn fields_of(line: Seq<char>) -> Seq<Seq<char>> {
    split(line, '|').map_values(|f: Seq<char>| trim(f))
}

/// The reading that a row's fields hold; fields past the tenth say nothing.
pub open spec fn reading_of(fields: Seq<Seq<char>>) -> Reading {
    Reading {
        name: fields[0],
        value: parse_milli(fields[1]),
        unit: optional_text(fields[2]),
        status: optional_text(fields[3]),
        thresholds: Thresholds {
            lnr: parse_milli(fields[4]),
            lc: parse_milli(fields[5]),
            lnc: parse_milli(fields[6]),
            unc: parse_milli(fields[7]),
            uc: parse_milli(fields[8]),
            unr: parse_milli(fields[9]),
        },
    }
}

/// What a line reads as: a reading where it holds a full row, nothing where
/// it is too short.
pub open spec fn parse_line(line: Seq<char>) -> Option<Reading> {
    if fields_of(line).len() < ROW_FIELDS {
        None
    } else {
        Some(reading_of(fields_of(line)))
    }
}

impl SensorResult {
    /// Reads one row of the sensor table. A line with fewer than ten fields is
    /// refused; in a full row a field that holds no number, or the
    /// not-applicable token, is read as absent and never refused.
    pub fn from_line(line: &str) -> (r: Result<Self, ParseError>)
        ensures
            r is Ok <==> split(line@, '|').len() >= ROW_FIELDS,
            r matches Ok(reading) ==> parse_line(line@) == Some(reading@),
            r matches Err(e) ==> e is InvalidFormat && parse_line(line@) is None,
            r matches Ok(reading) ==> (fields_of(line@)[1] == not_applicable()
                ==> reading.value is None),
    {
        proof {
            lemma_not_applicable_is_no_number();
        }
        let cs = chars_of(line);
        let columns = split_bounds(&cs, '|');
        if columns.len() < ROW_FIELDS {
            return Err(ParseError::InvalidFormat);
        }
        let name = trim_bounds(&cs, columns[0].0, columns[0].1);
        let unit = trim_bounds(&cs, columns[2].0, columns[2].1);
        let status = trim_bounds(&cs, columns[3].0, columns[3].1);
        let reading = SensorResult {
            sensor_name: line.substring_char(name.0, name.1).to_owned(),
            value: number_at(&cs, &columns, 1),
            unit: parse_optional_string(line.substring_char(unit.0, unit.1)),
            status: parse_optional_string(line.substring_char(status.0, status.1)),
            thresholds: Thresholds {
                lnr: number_at(&cs, &columns, 4),
                lc: number_at(&cs, &columns, 5),
                lnc: number_at(&cs, &columns, 6),
                unc: number_at(&cs, &columns, 7),
                uc: number_at(&cs, &columns, 8),
                unr: number_at(&cs, &columns, 9),
            },
        };
        proof {
            let fields = fields_of(line@);
            assert(fields[0] == trim(split(line@, '|')[0]));
            assert(fields[2] == trim(split(line@, '|')[2]));
            assert(fields[3] == trim(split(line@, '|')[3]));
            assert(reading@.thresholds == reading_of(fields).thresholds);
            assert(reading@ == reading_of(fields));
        }
        Ok(reading)
    }
}

/// Reads the number in the `k`-th column of a row.
fn number_at(cs: &Vec<char>, columns: &Vec<(usize, usize)>, k: usize) -> (r: Option<i64>)
    requires
        k < columns@.len() == split(cs@, '|').len(),
        forall|j: int|
            0 <= j < columns@.len() ==> ({
                &&& (#[trigger] columns@[j]).0 <= columns@[j].1 <= cs@.len()
                &&& cs@.subrange(columns@[j].0 as int, columns@[j].1 as int) == split(cs@, '|')[j]
            }),
    ensures
        r == parse_milli(fields_of(cs@)[k as int]),
{
    let column = columns[k];
    let (from, to) = trim_bounds(cs, column.0, column.1);
    let field = copy_range(cs, from, to);
    parse_decimal(&field)
}

/// Reads an optional number: absent where the text is no number.
pub fn parse_optional_milli(s: &str) -> (r: Option<i64>)
    ensures
        r == parse_milli(s@),
{
    let cs = chars_of(s);
    parse_decimal(&cs)
}

/// Reads an optional text: absent where it is empty or the not-applicable
/// token.
pub fn parse_optional_string(s: &str) -> (r: Option<String>)
    ensures
        text_of(r) == optional_text(s@),
{
    proof {
        reveal_strlit("na");
        reveal_strlit("");
        assert("na"@ =~= not_applicable());
    }
    if str_eq(s, "na") || str_eq(s, "") {
        assert(s@.len() == 0 <==> s@ =~= ""@);
        None
    } else {
        assert(s@.len() == 0 <==> s@ =~= ""@);
        Some(s.to_owned())
    }
}

/// A line with fewer than nine separators has fewer than ten fields, and
/// reads as nothing, whatever else it holds.
pub proof fn lemma_short_line_is_refused(line: Seq<char>)
    requires
        count_of(line, '|') < 9,
    ensures
        fields_of(line).len() < ROW_FIELDS,
        parse_line(line) is None,
{
    lemma_split_shape(line, '|');
}

/// The not-applicable token is no number.
pub proof fn lemma_not_applicable_is_no_number()
    ensures
        parse_milli(not_applicable()) is None,
{
    let na = not_applicable();
    assert(lowered(na) =~= na);
    assert(na.skip(0) =~= na);
    assert(na.drop_last() =~= seq!['n']);
    assert(seq!['n'].drop_last() =~= Seq::<char>::empty());
    lemma_split_shape(na, 'e');
    assert(count_of(seq!['n'], 'e') == 0);
    assert(count_of(na, 'e') == 0);
    assert(split(na, 'e')[0] == na);
    lemma_split_shape(na, '.');
    assert(count_of(seq!['n'], '.') == 0);
    assert(count_of(na, '.') == 0);
    assert(split(na, '.')[0] == na);
    assert(whole_of(na)[0] == 'n');
    assert(!all_digits(whole_of(na)));
    assert(!is_number(na));
}

/// In a full row whose value field is exactly the not-applicable token, the
/// reading has no value: the row is read, and its value is absent rather than
/// zero.
pub proof fn lemma_not_applicable_value_is_absent(line: Seq<char>)
    requires
        fields_of(line).len() >= ROW_FIELDS,
        fields_of(line)[1] == not_applicable(),
    ensures
        parse_line(line) is Some,
        parse_line(line)->0.value is None,
{
    lemma_not_applicable_is_no_number();
}

} // verus!
