//! Client-side model of the weather provider's "current weather" query.
//!
//! The provider is reached over HTTP by unverified code; this module holds
//! what can be verified of that interaction: the client configuration, the
//! request URL it derives, the parsed coordinate, and the shape of a
//! successful response.

use vstd::prelude::*;

verus! {

// ---------------------------------------------------------------------------
// Floating-point number tokens.
//
// A coordinate is configured as text and kept as text: the two sides of the
// pair are accepted exactly when they are floating-point number tokens, that
// is, when they follow the grammar that Rust's float parser documents:
//
//   Float  ::= Sign? ( 'inf' | 'infinity' | 'nan' | Number )
//   Number ::= Count '.'? Exp? | '.' Count Exp? | Count '.' Count Exp?
//   Exp    ::= ('e' | 'E') Sign? Count
//   Count  ::= Digit+
//
// with 'inf', 'infinity' and 'nan' matched case-insensitively.
// ---------------------------------------------------------------------------

/// A decimal digit.
pub open spec fn is_digit_char(c: char) -> bool {
    '0' <= c && c <= '9'
}

/// A character allowed in the mantissa of a number: a digit or the point.
pub open spec fn mantissa_char(c: char) -> bool {
    is_digit_char(c) || c == '.'
}

/// A sign character.
pub open spec fn is_sign_char(c: char) -> bool {
    c == '+' || c == '-'
}

/// An exponent marker.
pub open spec fn is_exp_char(c: char) -> bool {
    c == 'e' || c == 'E'
}

/// The string with one leading sign removed, if there is one.
pub open spec fn strip_sign(s: Seq<char>) -> Seq<char> {
    if s.len() > 0 && is_sign_char(s[0]) {
        s.skip(1)
    } else {
        s
    }
}

/// One or more digits and nothing else.
pub open spec fn is_count(s: Seq<char>) -> bool {
    &&& s.len() > 0
    &&& forall|i: int| 0 <= i < s.len() ==> is_digit_char(#[trigger] s[i])
}

/// A mantissa: only digits and points, at least one digit, at most one point.
///
/// This says the same as the three `Number` alternatives of the grammar with
/// the exponent stripped off: digits alone, digits then a point, a point
/// between or beside digits.
pub open spec fn is_mantissa(s: Seq<char>) -> bool {
    &&& s.len() > 0
    &&& forall|i: int| 0 <= i < s.len() ==> mantissa_char(#[trigger] s[i])
    &&& exists|i: int| 0 <= i < s.len() && is_digit_char(#[trigger] s[i])
    &&& forall|i: int, j: int|
        #![trigger s[i], s[j]]
        0 <= i < j < s.len() ==> !(s[i] == '.' && s[j] == '.')
}

/// An exponent without its marker: an optional sign, then one or more digits.
pub open spec fn is_exp_part(s: Seq<char>) -> bool {
    is_count(strip_sign(s))
}

/// A number: a mantissa, optionally followed by an exponent marker and an
/// exponent.
pub open spec fn is_number(s: Seq<char>) -> bool {
    ||| is_mantissa(s)
    ||| exists|i: int|
        0 <= i < s.len() && is_exp_char(#[trigger] s[i]) && is_mantissa(s.take(i)) && is_exp_part(
            s.skip(i + 1),
        )
}

/// ASCII lowering of the letters that appear in the special float words.
pub open spec fn lower_char(c: char) -> char {
    if c == 'I' {
        'i'
    } else if c == 'N' {
        'n'
    } else if c == 'F' {
        'f'
    } else if c == 'T' {
        't'
    } else if c == 'Y' {
        'y'
    } else if c == 'A' {
        'a'
    } else {
        c
    }
}

/// Case-insensitive equality of `s` against an already-lowercase word `t`.
pub open spec fn eq_ci(s: Seq<char>, t: Seq<char>) -> bool {
    &&& s.len() == t.len()
    &&& forall|i: int| 0 <= i < s.len() ==> lower_char(#[trigger] s[i]) == t[i]
}

/// One of the special float words, case-insensitively.
pub open spec fn is_special(s: Seq<char>) -> bool {
    ||| eq_ci(s, "inf"@)
    ||| eq_ci(s, "infinity"@)
    ||| eq_ci(s, "nan"@)
}

/// A floating-point number token: an optional sign, then a special word or a
/// number.
pub open spec fn is_float_token(s: Seq<char>) -> bool {
    ||| is_special(strip_sign(s))
    ||| is_number(strip_sign(s))
}

/// Lowers the letters of the special float words.
fn char_lower(c: char) -> (r: char)
    ensures
        r == lower_char(c),
{
    if c == 'I' {
        'i'
    } else if c == 'N' {
        'n'
    } else if c == 'F' {
        'f'
    } else if c == 'T' {
        't'
    } else if c == 'Y' {
        'y'
    } else if c == 'A' {
        'a'
    } else {
        c
    }
}

/// Compares the tail of `s` starting at `from` against a lowercase word.
fn eq_ci_from(s: &str, from: usize, t: &str) -> (b: bool)
    requires
        from <= s@.len(),
    ensures
        b == eq_ci(s@.skip(from as int), t@),
{
    let n = s.unicode_len();
    let m = t.unicode_len();
    if n - from != m {
        return false;
    }
    let mut i: usize = 0;
    while i < m
        invariant
            from + m == n,
            i <= m,
            n == s@.len(),
            m == t@.len(),
            forall|j: int| 0 <= j < i ==> lower_char(#[trigger] s@[from + j]) == t@[j],
        decreases m - i,
    {
        if char_lower(s.get_char(from + i)) != t.get_char(i) {
            assert(!eq_ci(s@.skip(from as int), t@)) by {
                assert(s@.skip(from as int)[i as int] == s@[from + i]);
            }
            return false;
        }
        i += 1;
    }
    assert(eq_ci(s@.skip(from as int), t@)) by {
        assert(forall|j: int|
            0 <= j < m ==> #[trigger] s@.skip(from as int)[j] == s@[from + j]);
    }
    true
}

/// Checks `s[from..to]` for the mantissa shape.
fn mantissa_ok(s: &str, from: usize, to: usize) -> (b: bool)
    requires
        from <= to <= s@.len(),
    ensures
        b == is_mantissa(s@.subrange(from as int, to as int)),
{
    let ghost sub = s@.subrange(from as int, to as int);
    let mut i: usize = from;
    let mut seen_digit: bool = false;
    let mut seen_dot: bool = false;
    while i < to
        invariant
            from <= i <= to <= s@.len(),
            sub == s@.subrange(from as int, to as int),
            forall|j: int| 0 <= j < i - from ==> mantissa_char(#[trigger] sub[j]),
            seen_digit == exists|j: int| 0 <= j < i - from && is_digit_char(#[trigger] sub[j]),
            seen_dot == exists|j: int| 0 <= j < i - from && #[trigger] sub[j] == '.',
            forall|j: int, k: int|
                #![trigger sub[j], sub[k]]
                0 <= j < k < i - from ==> !(sub[j] == '.' && sub[k] == '.'),
        decreases to - i,
    {
        let c = s.get_char(i);
        assert(sub[i - from] == c);
        if c == '.' {
            if seen_dot {
                return false;
            }
            seen_dot = true;
        } else if '0' <= c && c <= '9' {
            seen_digit = true;
        } else {
            assert(!mantissa_char(sub[i - from]));
            return false;
        }
        i += 1;
    }
    seen_digit
}

/// Checks `s[from..to]` for the exponent shape: optional sign, then digits.
fn exp_ok(s: &str, from: usize, to: usize) -> (b: bool)
    requires
        from <= to <= s@.len(),
    ensures
        b == is_exp_part(s@.subrange(from as int, to as int)),
{
    let ghost sub = s@.subrange(from as int, to as int);
    let mut start: usize = from;
    if from < to {
        let c = s.get_char(from);
        if c == '+' || c == '-' {
            start = from + 1;
        }
    }
    assert(strip_sign(sub) =~= s@.subrange(start as int, to as int));
    let ghost body = s@.subrange(start as int, to as int);
    if start == to {
        return false;
    }
    let mut i: usize = start;
    while i < to
        invariant
            start <= i <= to <= s@.len(),
            body == s@.subrange(start as int, to as int),
            sub == s@.subrange(from as int, to as int),
            strip_sign(sub) == body,
            forall|j: int| 0 <= j < i - start ==> is_digit_char(#[trigger] body[j]),
        decreases to - i,
    {
        let c = s.get_char(i);
        assert(body[i - start] == c);
        if !('0' <= c && c <= '9') {
            return false;
        }
        i += 1;
    }
    true
}

/// Finds the first exponent marker in `s[from..to]`, or returns `to`.
fn find_exp(s: &str, from: usize, to: usize) -> (r: usize)
    requires
        from <= to <= s@.len(),
    ensures
        from <= r <= to,
        forall|j: int| from <= j < r ==> !is_exp_char(#[trigger] s@[j]),
        r < to ==> is_exp_char(s@[r as int]),
{
    let mut i: usize = from;
    while i < to
        invariant
            from <= i <= to <= s@.len(),
            forall|j: int| from <= j < i ==> !is_exp_char(#[trigger] s@[j]),
        decreases to - i,
    {
        let c = s.get_char(i);
        if c == 'e' || c == 'E' {
            return i;
        }
        i += 1;
    }
    to
}

/// Checks `s[from..to]` for the number shape.
fn number_ok(s: &str, from: usize, to: usize) -> (b: bool)
    requires
        from <= to <= s@.len(),
    ensures
        b == is_number(s@.subrange(from as int, to as int)),
{
    let ghost sub = s@.subrange(from as int, to as int);
    let i = find_exp(s, from, to);
    assert(forall|j: int| 0 <= j < i - from ==> !is_exp_char(#[trigger] sub[j]));
    if i == to {
        // No exponent marker anywhere: only the bare-mantissa alternative can hold.
        assert(forall|j: int| 0 <= j < sub.len() ==> !is_exp_char(#[trigger] sub[j]));
        return mantissa_ok(s, from, to);
    }
    // The first exponent marker sits at `i`; any split of `sub` into mantissa,
    // marker and exponent must split exactly there, since a mantissa holds no
    // marker.
    let ghost e = i - from;
    assert(is_exp_char(sub[e]));
    let m = mantissa_ok(s, from, i);
    let x = exp_ok(s, i + 1, to);
    proof {
        assert(sub.take(e) =~= s@.subrange(from as int, i as int));
        assert(sub.skip(e + 1) =~= s@.subrange(i as int + 1, to as int));
        if m && x {
            assert(is_number(sub));
        }
        if !(m && x) {
            assert(!is_mantissa(sub)) by {
                if is_mantissa(sub) {
                    assert(mantissa_char(sub[e]));
                }
            }
            assert(forall|k: int|
                0 <= k < sub.len() && is_exp_char(#[trigger] sub[k]) && is_mantissa(sub.take(k))
                    && is_exp_part(sub.skip(k + 1)) ==> false) by {
                assert forall|k: int|
                    0 <= k < sub.len() && is_exp_char(#[trigger] sub[k]) && is_mantissa(
                        sub.take(k),
                    ) && is_exp_part(sub.skip(k + 1)) implies false by {
                    if k < e {
                        assert(!is_exp_char(sub[k]));
                    } else if k > e {
                        assert(sub.take(k)[e] == sub[e]);
                        assert(mantissa_char(sub[e]));
                    }
                }
            }
            assert(!is_number(sub));
        }
    }
    m && x
}

/// Decides whether `s` is a floating-point number token.
pub fn float_token(s: &str) -> (b: bool)
    ensures
        b == is_float_token(s@),
{
    let n = s.unicode_len();
    let mut start: usize = 0;
    if n > 0 {
        let c = s.get_char(0);
        if c == '+' || c == '-' {
            start = 1;
        }
    }
    assert(strip_sign(s@) =~= s@.skip(start as int));
    if eq_ci_from(s, start, "inf") || eq_ci_from(s, start, "infinity") || eq_ci_from(
        s,
        start,
        "nan",
    ) {
        return true;
    }
    let b = number_ok(s, start, n);
    assert(s@.subrange(start as int, n as int) =~= s@.skip(start as int));
    b
}

// ---------------------------------------------------------------------------
// The configured coordinate.
// ---------------------------------------------------------------------------

/// The position of the first comma in `s` at or after `i`, or `s.len()`.
pub open spec fn first_comma_from(s: Seq<char>, i: int) -> int
    decreases s.len() - i when 0 <= i <= s.len()
{
    if i >= s.len() {
        s.len() as int
    } else if s[i] == ',' {
        i
    } else {
        first_comma_from(s, i + 1)
    }
}

/// The position of the first comma in `s`, or `s.len()` if there is none.
pub open spec fn first_comma(s: Seq<char>) -> int {
    first_comma_from(s, 0)
}

proof fn lemma_first_comma_from_is(s: Seq<char>, i: int, k: int)
    requires
        0 <= i <= k <= s.len(),
        forall|j: int| i <= j < k ==> s[j] != ',',
        k < s.len() ==> s[k] == ',',
    ensures
        first_comma_from(s, i) == k,
    decreases k - i,
{
    if i < k {
        lemma_first_comma_from_is(s, i + 1, k);
    }
}

/// Finds the first comma of `s`, or its length if it has none.
fn find_comma(s: &str) -> (k: usize)
    ensures
        k == first_comma(s@),
        k <= s@.len(),
        k < s@.len() ==> s@[k as int] == ',',
        forall|j: int| 0 <= j < k ==> s@[j] != ',',
{
    let n = s.unicode_len();
    let mut i: usize = 0;
    while i < n
        invariant
            i <= n == s@.len(),
            forall|j: int| 0 <= j < i ==> s@[j] != ',',
        decreases n - i,
    {
        if s.get_char(i) == ',' {
            proof {
                lemma_first_comma_from_is(s@, 0, i as int);
            }
            return i;
        }
        i += 1;
    }
    proof {
        lemma_first_comma_from_is(s@, 0, n as int);
    }
    n
}

/// Why a coordinate string was rejected.
#[derive(Clone, Copy, Debug, PartialEq, Eq, Structural)]
pub enum ParseError {
    /// The string holds no comma.
    MissingSeparator,
    /// The side before the first comma is not a float token.
    BadLatitude,
    /// The side after the first comma is not a float token.
    BadLongitude,
}

/// A latitude/longitude pair, kept as the two float tokens it was configured
/// with.
#[derive(Clone, Debug)]
pub struct LatLon {
    lat: String,
    lon: String,
}

impl LatLon {
    /// The latitude token.
    pub closed spec fn spec_lat(self) -> Seq<char> {
        self.lat@
    }

    /// The longitude token.
    pub closed spec fn spec_lon(self) -> Seq<char> {
        self.lon@
    }

    /// Both sides are float tokens.
    pub open spec fn wf(self) -> bool {
        &&& is_float_token(self.spec_lat())
        &&& is_float_token(self.spec_lon())
    }

    /// The latitude token as text.
    pub fn lat_str(&self) -> (r: &str)
        ensures
            r@ == self.spec_lat(),
    {
        self.lat.as_str()
    }

    /// The longitude token as text.
    pub fn lon_str(&self) -> (r: &str)
        ensures
            r@ == self.spec_lon(),
    {
        self.lon.as_str()
    }

    /// Parses a coordinate of the form `"<lat>,<lon>"`.
    ///
    /// The string is split at its first comma; parsing succeeds exactly when
    /// there is a comma and both sides are floating-point number tokens, and
    /// the parsed pair holds those two sides unchanged.
    pub fn from_str(s: &str) -> (r: Result<LatLon, ParseError>)
        ensures
            ({
                let k = first_comma(s@);
                let lat = s@.take(k);
                let lon = s@.skip(k + 1);
                match r {
                    Ok(c) => {
                        &&& k < s@.len()
                        &&& is_float_token(lat)
                        &&& is_float_token(lon)
                        &&& c.spec_lat() == lat
                        &&& c.spec_lon() == lon
                        &&& c.wf()
                        &&& s@ == c.spec_lat() + seq![','] + c.spec_lon()
                        &&& forall|j: int| 0 <= j < k ==> c.spec_lat()[j] != ','
                    },
                    Err(ParseError::MissingSeparator) => k == s@.len(),
                    Err(ParseError::BadLatitude) => k < s@.len() && !is_float_token(lat),
                    Err(ParseError::BadLongitude) => k < s@.len() && is_float_token(lat)
                        && !is_float_token(lon),
                }
            }),
    {
        let n = s.unicode_len();
        let k = find_comma(s);
        if k == n {
            return Err(ParseError::MissingSeparator);
        }
        let lat_s = s.substring_char(0, k);
        let lon_s = s.substring_char(k + 1, n);
        assert(lat_s@ =~= s@.take(k as int));
        assert(lon_s@ =~= s@.skip(k as int + 1));
        if !float_token(lat_s) {
            return Err(ParseError::BadLatitude);
        }
        if !float_token(lon_s) {
            return Err(ParseError::BadLongitude);
        }
        let r = LatLon { lat: lat_s.to_owned(), lon: lon_s.to_owned() };
        assert(s@ =~= r.spec_lat() + seq![','] + r.spec_lon());
        Ok(r)
    }
}

/// Law: assembling two float tokens around a comma and parsing the result
/// back yields exactly those two tokens.
///
/// Together with the contract of `LatLon::from_str`, this says that parsing
/// round-trips: for every pair of float tokens, `"<lat>,<lon>"` parses
/// successfully and returns the same two tokens.
pub proof fn lemma_parse_round_trip(lat: Seq<char>, lon: Seq<char>)
    requires
        is_float_token(lat),
        is_float_token(lon),
    ensures
        ({
            let s = lat + seq![','] + lon;
            &&& first_comma(s) == lat.len()
            &&& s.take(lat.len() as int) == lat
            &&& s.skip(lat.len() as int + 1) == lon
            &&& first_comma(s) < s.len()
        }),
{
    let s = lat + seq![','] + lon;
    lemma_float_token_chars(lat);
    assert(forall|j: int| 0 <= j < lat.len() ==> lat[j] != ',');
    assert(s[lat.len() as int] == ',');
    lemma_first_comma_from_is(s, 0, lat.len() as int);
    assert(s.take(lat.len() as int) =~= lat);
    assert(s.skip(lat.len() as int + 1) =~= lon);
}

/// A character that can stand in a floating-point number token: a digit, a
/// point, a sign, an exponent marker, or a letter of one of the special
/// words.
pub open spec fn float_char(c: char) -> bool {
    ||| is_digit_char(c)
    ||| c == '.'
    ||| is_sign_char(c)
    ||| is_exp_char(c)
    ||| lower_char(c) == 'i'
    ||| lower_char(c) == 'n'
    ||| lower_char(c) == 'f'
    ||| lower_char(c) == 't'
    ||| lower_char(c) == 'y'
    ||| lower_char(c) == 'a'
}

/// Every character of a floating-point number token is a `float_char`. In
/// particular such a token holds no comma, no quote, no backslash, no brace
/// and no line break.
pub proof fn lemma_float_token_chars(s: Seq<char>)
    requires
        is_float_token(s),
    ensures
        forall|j: int| 0 <= j < s.len() ==> float_char(#[trigger] s[j]),
{
    let t = strip_sign(s);
    assert forall|j: int| 0 <= j < s.len() implies float_char(#[trigger] s[j]) by {
        if s.len() > 0 && is_sign_char(s[0]) && j == 0 {
        } else {
            let i = if s.len() > 0 && is_sign_char(s[0]) {
                j - 1
            } else {
                j
            };
            assert(t[i] == s[j]);
            lemma_float_token_body_chars(t, i);
        }
    }
}

proof fn lemma_float_token_body_chars(t: Seq<char>, i: int)
    requires
        0 <= i < t.len(),
        is_special(t) || is_number(t),
    ensures
        float_char(t[i]),
{
    if is_special(t) {
        reveal_strlit("inf");
        reveal_strlit("infinity");
        reveal_strlit("nan");
        assert(float_char(t[i]));
    } else if is_mantissa(t) {
        assert(mantissa_char(t[i]));
    } else {
        let k = choose|k: int|
            0 <= k < t.len() && is_exp_char(#[trigger] t[k]) && is_mantissa(t.take(k))
                && is_exp_part(t.skip(k + 1));
        if i < k {
            assert(t.take(k)[i] == t[i]);
            assert(mantissa_char(t[i]));
        } else if i == k {
        } else {
            let x = t.skip(k + 1);
            let b = strip_sign(x);
            assert(x[i - k - 1] == t[i]);
            if x.len() > 0 && is_sign_char(x[0]) && i == k + 1 {
            } else {
                let m = if x.len() > 0 && is_sign_char(x[0]) {
                    i - k - 2
                } else {
                    i - k - 1
                };
                assert(b[m] == t[i]);
                assert(is_digit_char(b[m]));
            }
        }
    }
}

// ---------------------------------------------------------------------------
// The provider's response, as plain values.
// ---------------------------------------------------------------------------

/// The numeric readings of one weather snapshot.
///
/// The two temperatures are kept as the decimal text the unverified decoder
/// rendered them to; pressure and humidity are integers, as the provider
/// reports them.
pub struct MainWeatherData {
    pub temp: String,
    pub feels_like: String,
    pub pressure: i64,
    pub humidity: i64,
}

impl MainWeatherData {
    /// The temperature texts are floating-point number tokens.
    pub open spec fn wf(self) -> bool {
        &&& is_float_token(self.temp@)
        &&& is_float_token(self.feels_like@)
    }
}

/// One successful fetch: the location's identity and its current readings.
pub struct CurrentWeather {
    pub coord: LatLon,
    pub main: MainWeatherData,
    pub id: u64,
    pub name: String,
}

impl CurrentWeather {
    /// The readings carry well-formed number texts.
    pub open spec fn wf(self) -> bool {
        self.main.wf()
    }

    /// Decides `wf`, so that unverified code can test a decoded response
    /// before handing it to the registry.
    pub fn well_formed(&self) -> (b: bool)
        ensures
            b == self.wf(),
    {
        float_token(self.main.temp.as_str()) && float_token(self.main.feels_like.as_str())
    }
}

/// The one kind of fetch failure: transport, status or decoding, collapsed
/// into a diagnostic message.
pub enum ApiError {
    HttpError { message: String },
}

/// Configuration of the weather-provider client: the API credential.
pub struct ApiClient {
    api_key: String,
}

impl ApiClient {
    /// The credential this client was created with.
    pub closed spec fn spec_api_key(self) -> Seq<char> {
        self.api_key@
    }

    /// Builds a client around the given API credential.
    pub fn create(api_key: String) -> (r: ApiClient)
        ensures
            r.spec_api_key() == api_key@,
    {
        ApiClient { api_key }
    }

    /// The provider's current-weather query for `w`: the fixed endpoint,
    /// the coordinate, this client's credential, and metric units.
    pub open spec fn spec_weather_url(self, w: LatLon) -> Seq<char> {
        "https://api.openweathermap.org/data/2.5/weather?lat="@ + w.spec_lat() + "&lon="@
            + w.spec_lon() + "&appid="@ + self.spec_api_key() + "&units=metric"@
    }

    /// Builds the current-weather query URL for `w`.
    pub fn weather_url(&self, w: &LatLon) -> (r: String)
        ensures
            r@ == self.spec_weather_url(*w),
    {
        let mut url = String::new();
        url.append("https://api.openweathermap.org/data/2.5/weather?lat=");
        url.append(w.lat_str());
        url.append("&lon=");
        url.append(w.lon_str());
        url.append("&appid=");
        url.append(self.api_key.as_str());
        url.append("&units=metric");
        url
    }
}

} // verus!
