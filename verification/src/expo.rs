//! The text exposition of the registry.
//!
//! A scrape renders every series of every metric family into the text format
//! a metrics scraper consumes: for each family a help, type and (where one
//! applies) unit comment, then one line per label set with the label pair and
//! the instrument's value; the document ends with an end-of-file marker. The
//! encoder is a total function of the registry's state, so every scrape of a
//! given state yields the one document this module's spec describes.

use crate::metrics::{MetricFamilies, SeriesModel};
use crate::owm_api::{float_char, is_digit_char, is_float_token, lemma_float_token_chars};
use vstd::prelude::*;

verus! {

// ---------------------------------------------------------------------------
// Decimal text of integers.
// ---------------------------------------------------------------------------

/// The decimal digit `d` as a character.
pub open spec fn digit_char(d: nat) -> char {
    if d == 0 {
        '0'
    } else if d == 1 {
        '1'
    } else if d == 2 {
        '2'
    } else if d == 3 {
        '3'
    } else if d == 4 {
        '4'
    } else if d == 5 {
        '5'
    } else if d == 6 {
        '6'
    } else if d == 7 {
        '7'
    } else if d == 8 {
        '8'
    } else {
        '9'
    }
}

/// The decimal digits of `n`, most significant first.
pub open spec fn dec_digits(n: nat) -> Seq<char>
    decreases n,
{
    if n < 10 {
        seq![digit_char(n)]
    } else {
        dec_digits(n / 10) + seq![digit_char(n % 10)]
    }
}

/// The decimal text of a possibly negative integer.
pub open spec fn dec_int(v: int) -> Seq<char> {
    if v < 0 {
        seq!['-'] + dec_digits((-v) as nat)
    } else {
        dec_digits(v as nat)
    }
}

/// The digit `d` as a one-character string.
fn digit_str(d: u64) -> (r: &'static str)
    requires
        d < 10,
    ensures
        r@ == seq![digit_char(d as nat)],
{
    let r = if d == 0 {
        "0"
    } else if d == 1 {
        "1"
    } else if d == 2 {
        "2"
    } else if d == 3 {
        "3"
    } else if d == 4 {
        "4"
    } else if d == 5 {
        "5"
    } else if d == 6 {
        "6"
    } else if d == 7 {
        "7"
    } else if d == 8 {
        "8"
    } else {
        "9"
    };
    proof {
        reveal_strlit("0");
        reveal_strlit("1");
        reveal_strlit("2");
        reveal_strlit("3");
        reveal_strlit("4");
        reveal_strlit("5");
        reveal_strlit("6");
        reveal_strlit("7");
        reveal_strlit("8");
        reveal_strlit("9");
        assert(r@ =~= seq![digit_char(d as nat)]);
    }
    r
}

/// Renders `n` in decimal.
pub fn u64_dec(n: u64) -> (r: String)
    ensures
        r@ == dec_digits(n as nat),
    decreases n,
{
    if n < 10 {
        digit_str(n).to_owned()
    } else {
        let mut r = u64_dec(n / 10);
        r.append(digit_str(n % 10));
        r
    }
}

/// Renders `v` in decimal, with a leading minus where it is negative.
pub fn i64_dec(v: i64) -> (r: String)
    ensures
        r@ == dec_int(v as int),
{
    if v >= 0 {
        u64_dec(v as u64)
    } else {
        let mag: u64 = if v == i64::MIN {
            9223372036854775808u64
        } else {
            (-v) as u64
        };
        let mut r = "-".to_owned();
        r.append(u64_dec(mag).as_str());
        proof {
            reveal_strlit("-");
            assert(r@ =~= dec_int(v as int));
        }
        r
    }
}

// ---------------------------------------------------------------------------
// Escaping of label values.
// ---------------------------------------------------------------------------

/// How one character of a label value is written: backslash, quote and
/// newline are escaped, everything else stands as it is.
pub open spec fn escaped_char(c: char) -> Seq<char> {
    if c == '\\' {
        seq!['\\', '\\']
    } else if c == '"' {
        seq!['\\', '"']
    } else if c == '\n' {
        seq!['\\', 'n']
    } else {
        seq![c]
    }
}

/// The escaped form of a label value.
pub open spec fn escaped(s: Seq<char>) -> Seq<char>
    decreases s.len(),
{
    if s.len() == 0 {
        Seq::empty()
    } else {
        escaped(s.drop_last()) + escaped_char(s.last())
    }
}

/// Appends the escaped form of `s` to `out`.
fn escape_append(out: &mut String, s: &str)
    ensures
        final(out)@ == old(out)@ + escaped(s@),
{
    let ghost orig = out@;
    let n = s.unicode_len();
    let mut i: usize = 0;
    while i < n
        invariant
            i <= n == s@.len(),
            out@ == orig + escaped(s@.take(i as int)),
        decreases n - i,
    {
        let c = s.get_char(i);
        if c == '\\' {
            out.append("\\\\");
        } else if c == '"' {
            out.append("\\\"");
        } else if c == '\n' {
            out.append("\\n");
        } else {
            let piece = s.substring_char(i, i + 1);
            out.append(piece);
        }
        proof {
            reveal_strlit("\\\\");
            reveal_strlit("\\\"");
            reveal_strlit("\\n");
            assert(s@.take(i + 1).drop_last() =~= s@.take(i as int));
            assert(s@.take(i + 1).last() == s@[i as int]);
            assert(out@ =~= orig + escaped(s@.take(i + 1)));
        }
        i += 1;
    }
    proof {
        assert(s@.take(n as int) =~= s@);
    }
}

// ---------------------------------------------------------------------------
// The five metric families and their series lines.
// ---------------------------------------------------------------------------

/// The five metrics the exposition carries, in their fixed order.
#[derive(Clone, Copy)]
pub enum Metric {
    Temperature,
    TemperatureFeel,
    ApiRequests,
    Pressure,
    Humidity,
}

/// The series name of a metric, unit suffix and counter suffix included.
pub open spec fn metric_name(f: Metric) -> Seq<char> {
    match f {
        Metric::Temperature => "temperature_celsius"@,
        Metric::TemperatureFeel => "temperature_feel_celsius"@,
        Metric::ApiRequests => "api_requests_total"@,
        Metric::Pressure => "pressure_hPa"@,
        Metric::Humidity => "humidity"@,
    }
}

/// The value text a series shows for a metric.
pub open spec fn metric_value(f: Metric, m: SeriesModel) -> Seq<char> {
    match f {
        Metric::Temperature => m.temp,
        Metric::TemperatureFeel => m.temp_feel,
        Metric::ApiRequests => dec_digits(m.req_count as nat),
        Metric::Pressure => dec_int(m.pressure),
        Metric::Humidity => dec_int(m.humidity),
    }
}

/// The label pair of a series, between braces, followed by the value
/// separator.
pub open spec fn label_pair(id: u64, name: Seq<char>) -> Seq<char> {
    "{location_id=\""@ + dec_digits(id as nat) + "\",location=\""@ + escaped(name) + "\"} "@
}

/// One series line: name, label pair, value, newline.
pub open spec fn series_line(f: Metric, m: SeriesModel) -> Seq<char> {
    metric_name(f) + label_pair(m.id, m.name) + metric_value(f, m) + "\n"@
}

/// The series lines of one metric family, in storage order.
pub open spec fn lines_for(s: Seq<SeriesModel>, f: Metric) -> Seq<char>
    decreases s.len(),
{
    if s.len() == 0 {
        Seq::empty()
    } else {
        lines_for(s.drop_last(), f) + series_line(f, s.last())
    }
}

/// The series name of a metric, as text.
fn metric_name_str(f: Metric) -> (r: &'static str)
    ensures
        r@ == metric_name(f),
{
    match f {
        Metric::Temperature => "temperature_celsius",
        Metric::TemperatureFeel => "temperature_feel_celsius",
        Metric::ApiRequests => "api_requests_total",
        Metric::Pressure => "pressure_hPa",
        Metric::Humidity => "humidity",
    }
}

/// Appends the label pair of one series.
fn append_label_pair(out: &mut String, id: u64, name: &String)
    ensures
        final(out)@ == old(out)@ + label_pair(id, name@),
{
    out.append("{location_id=\"");
    out.append(u64_dec(id).as_str());
    out.append("\",location=\"");
    escape_append(out, name.as_str());
    out.append("\"} ");
}

/// Appends the series lines of one metric family.
fn append_family(out: &mut String, m: &MetricFamilies, f: Metric)
    ensures
        final(out)@ == old(out)@ + lines_for(m@, f),
{
    let ghost orig = out@;
    let n = m.series_count();
    let mut i: usize = 0;
    while i < n
        invariant
            i <= n == m@.len(),
            out@ == orig + lines_for(m@.take(i as int), f),
        decreases n - i,
    {
        let e = m.entry_at(i);
        out.append(metric_name_str(f));
        append_label_pair(out, e.0.location_id, &e.0.location);
        match f {
            Metric::Temperature => out.append(e.1.temp.as_str()),
            Metric::TemperatureFeel => out.append(e.1.temp_feel.as_str()),
            Metric::ApiRequests => out.append(u64_dec(e.1.req_count).as_str()),
            Metric::Pressure => out.append(i64_dec(e.1.pressure).as_str()),
            Metric::Humidity => out.append(i64_dec(e.1.humidity).as_str()),
        }
        out.append("\n");
        proof {
            assert(m@.take(i + 1).drop_last() =~= m@.take(i as int));
            assert(m@.take(i + 1).last() == m@[i as int]);
            assert(out@ =~= orig + lines_for(m@.take(i + 1), f));
        }
        i += 1;
    }
    proof {
        assert(m@.take(n as int) =~= m@);
    }
}

// ---------------------------------------------------------------------------
// The whole document.
// ---------------------------------------------------------------------------

/// The exposition of a registry state: for each family its comment block and
/// its series lines, then the end marker.
pub open spec fn spec_encode(s: Seq<SeriesModel>) -> Seq<char> {
    "# HELP temperature_celsius Current temperature in degrees Celsius.\n# TYPE temperature_celsius gauge\n# UNIT temperature_celsius celsius\n"@
        + lines_for(s, Metric::Temperature)
        + "# HELP temperature_feel_celsius Felt temperature in degrees Celsius.\n# TYPE temperature_feel_celsius gauge\n# UNIT temperature_feel_celsius celsius\n"@
        + lines_for(s, Metric::TemperatureFeel)
        + "# HELP api_requests Number of weather API requests since start.\n# TYPE api_requests counter\n"@
        + lines_for(s, Metric::ApiRequests)
        + "# HELP pressure_hPa Atmospheric pressure in hectopascal.\n# TYPE pressure_hPa gauge\n# UNIT pressure_hPa hPa\n"@
        + lines_for(s, Metric::Pressure)
        + "# HELP humidity Relative humidity in percent.\n# TYPE humidity gauge\n"@
        + lines_for(s, Metric::Humidity) + "# EOF\n"@
}

// ---------------------------------------------------------------------------
// Series lines are well-delimited.
// ---------------------------------------------------------------------------

/// No raw line break anywhere in `s`.
pub open spec fn newline_free(s: Seq<char>) -> bool {
    forall|i: int| 0 <= i < s.len() ==> s[i] != '\n'
}

proof fn lemma_newline_free_concat(a: Seq<char>, b: Seq<char>)
    requires
        newline_free(a),
        newline_free(b),
    ensures
        newline_free(a + b),
{
    assert forall|i: int| 0 <= i < (a + b).len() implies (a + b)[i] != '\n' by {
        if i < a.len() {
            assert((a + b)[i] == a[i]);
        } else {
            assert((a + b)[i] == b[i - a.len()]);
        }
    }
}

proof fn lemma_dec_digits_are_digits(n: nat)
    ensures
        forall|i: int| 0 <= i < dec_digits(n).len() ==> is_digit_char(#[trigger] dec_digits(n)[i]),
    decreases n,
{
    assert(is_digit_char(digit_char(n % 10)));
    if n < 10 {
        assert(dec_digits(n)[0] == digit_char(n));
    } else {
        lemma_dec_digits_are_digits(n / 10);
        let a = dec_digits(n / 10);
        let b = seq![digit_char(n % 10)];
        assert forall|i: int| 0 <= i < dec_digits(n).len() implies is_digit_char(
            #[trigger] dec_digits(n)[i],
        ) by {
            if i < a.len() {
                assert(dec_digits(n)[i] == a[i]);
            } else {
                assert(dec_digits(n)[i] == b[i - a.len()]);
            }
        }
    }
}

proof fn lemma_dec_int_newline_free(v: int)
    ensures
        newline_free(dec_int(v)),
{
    lemma_dec_digits_are_digits(if v < 0 {
        (-v) as nat
    } else {
        v as nat
    });
}

proof fn lemma_escaped_newline_free(s: Seq<char>)
    ensures
        newline_free(escaped(s)),
    decreases s.len(),
{
    if s.len() > 0 {
        lemma_escaped_newline_free(s.drop_last());
        assert(newline_free(escaped_char(s.last())));
        lemma_newline_free_concat(escaped(s.drop_last()), escaped_char(s.last()));
    }
}

proof fn lemma_float_token_newline_free(s: Seq<char>)
    requires
        is_float_token(s),
    ensures
        newline_free(s),
{
    lemma_float_token_chars(s);
    assert forall|i: int| 0 <= i < s.len() implies s[i] != '\n' by {
        assert(float_char(s[i]));
    }
}

/// Law: one series, one line. For a series whose gauge texts are number
/// tokens, every series line of every metric is its body followed by one
/// line break, and the body holds no line break: series lines of a scrape
/// can neither run into one another nor split apart.
pub proof fn lemma_series_line_well_delimited(f: Metric, m: SeriesModel)
    requires
        is_float_token(m.temp),
        is_float_token(m.temp_feel),
    ensures
        ({
            let line = series_line(f, m);
            &&& line.len() > 0
            &&& line.last() == '\n'
            &&& forall|i: int| 0 <= i < line.len() - 1 ==> line[i] != '\n'
        }),
{
    reveal_strlit("temperature_celsius");
    reveal_strlit("temperature_feel_celsius");
    reveal_strlit("api_requests_total");
    reveal_strlit("pressure_hPa");
    reveal_strlit("humidity");
    reveal_strlit("{location_id=\"");
    reveal_strlit("\",location=\"");
    reveal_strlit("\"} ");
    reveal_strlit("\n");
    assert(newline_free(metric_name(f)));
    lemma_dec_digits_are_digits(m.id as nat);
    lemma_escaped_newline_free(m.name);
    lemma_newline_free_concat("{location_id=\""@, dec_digits(m.id as nat));
    lemma_newline_free_concat("{location_id=\""@ + dec_digits(m.id as nat), "\",location=\""@);
    lemma_newline_free_concat(
        "{location_id=\""@ + dec_digits(m.id as nat) + "\",location=\""@,
        escaped(m.name),
    );
    lemma_newline_free_concat(
        "{location_id=\""@ + dec_digits(m.id as nat) + "\",location=\""@ + escaped(m.name),
        "\"} "@,
    );
    assert(newline_free(label_pair(m.id, m.name)));
    match f {
        Metric::Temperature => lemma_float_token_newline_free(m.temp),
        Metric::TemperatureFeel => lemma_float_token_newline_free(m.temp_feel),
        Metric::ApiRequests => lemma_dec_digits_are_digits(m.req_count as nat),
        Metric::Pressure => lemma_dec_int_newline_free(m.pressure),
        Metric::Humidity => lemma_dec_int_newline_free(m.humidity),
    }
    assert(newline_free(metric_value(f, m)));
    lemma_newline_free_concat(metric_name(f), label_pair(m.id, m.name));
    lemma_newline_free_concat(
        metric_name(f) + label_pair(m.id, m.name),
        metric_value(f, m),
    );
    let body = metric_name(f) + label_pair(m.id, m.name) + metric_value(f, m);
    let line = series_line(f, m);
    assert(line =~= body + "\n"@);
    assert(line.last() == '\n');
    assert forall|i: int| 0 <= i < line.len() - 1 implies line[i] != '\n' by {
        assert(line[i] == body[i]);
    }
}

/// Serializes the whole registry into the text exposition document.
///
/// The result is the one document `spec_encode` gives for the registry's
/// current state; a scrape has no effect on the registry.
pub fn get_metrics(m: &MetricFamilies) -> (r: String)
    ensures
        r@ == spec_encode(m@),
{
    let mut out = String::new();
    out.append(
        "# HELP temperature_celsius Current temperature in degrees Celsius.\n# TYPE temperature_celsius gauge\n# UNIT temperature_celsius celsius\n",
    );
    append_family(&mut out, m, Metric::Temperature);
    out.append(
        "# HELP temperature_feel_celsius Felt temperature in degrees Celsius.\n# TYPE temperature_feel_celsius gauge\n# UNIT temperature_feel_celsius celsius\n",
    );
    append_family(&mut out, m, Metric::TemperatureFeel);
    out.append("# HELP api_requests Number of weather API requests since start.\n# TYPE api_requests counter\n");
    append_family(&mut out, m, Metric::ApiRequests);
    out.append(
        "# HELP pressure_hPa Atmospheric pressure in hectopascal.\n# TYPE pressure_hPa gauge\n# UNIT pressure_hPa hPa\n",
    );
    append_family(&mut out, m, Metric::Pressure);
    out.append("# HELP humidity Relative humidity in percent.\n# TYPE humidity gauge\n");
    append_family(&mut out, m, Metric::Humidity);
    out.append("# EOF\n");
    out
}

} // verus!
