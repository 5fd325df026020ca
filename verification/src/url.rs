use vstd::prelude::*;
use vstd::string::StringSliceAdditionalSpecFns;

verus! {

/// Whether a byte stands for itself in a percent-encoded text: the ASCII
/// letters and digits and `-`, `.`, `_`, `~`.
pub open spec fn is_unreserved(byte: u8) -> bool {
    ||| 0x30 <= byte <= 0x39
    ||| 0x41 <= byte <= 0x5a
    ||| 0x61 <= byte <= 0x7a
    ||| byte == 0x2d
    ||| byte == 0x2e
    ||| byte == 0x5f
    ||| byte == 0x7e
}

/// The upper-case hexadecimal digit of a number below sixteen.
pub open spec fn hex_digit(value: u8) -> char {
    if value < 10 {
        (0x30 + value) as char
    } else {
        (0x41 + value - 10) as char
    }
}

/// The percent-encoding of some bytes: an unreserved byte stands for itself,
/// every other byte is written as `%` and its two hexadecimal digits.
pub open spec fn percent_encoded(bytes: Seq<u8>) -> Seq<char>
    decreases bytes.len(),
{
    if bytes.len() == 0 {
        Seq::empty()
    } else {
        let byte = bytes.last();
        let front = percent_encoded(bytes.drop_last());
        if is_unreserved(byte) {
            front.push(byte as char)
        } else {
            front.push('%').push(hex_digit(byte / 16)).push(hex_digit(byte % 16))
        }
    }
}

/// `urlencoding::encode`: percent-encodes every byte of the UTF-8 form of
/// `data` but the ASCII letters and digits and `-`, `.`, `_`, `~`.
#[verifier::external_body]
fn url_encode(data: &str) -> (encoded: String)
    ensures
        encoded@ == percent_encoded(data.spec_bytes()),
{
    urlencoding::encode(data).into_owned()
}

/// The character of a decimal digit.
pub open spec fn digit_char(digit: nat) -> char {
    if digit == 0 {
        '0'
    } else if digit == 1 {
        '1'
    } else if digit == 2 {
        '2'
    } else if digit == 3 {
        '3'
    } else if digit == 4 {
        '4'
    } else if digit == 5 {
        '5'
    } else if digit == 6 {
        '6'
    } else if digit == 7 {
        '7'
    } else if digit == 8 {
        '8'
    } else {
        '9'
    }
}

/// A number in decimal digits, without leading zeros.
pub open spec fn decimal_digits(n: nat) -> Seq<char>
    decreases n,
{
    if n < 10 {
        seq![digit_char(n)]
    } else {
        decimal_digits(n / 10).push(digit_char(n % 10))
    }
}

/// A number with its sign in decimal digits.
pub open spec fn signed_decimal_digits(n: int) -> Seq<char> {
    if n < 0 {
        seq!['-'] + decimal_digits((-n) as nat)
    } else {
        decimal_digits(n as nat)
    }
}

fn digit_text(digit: u64) -> (text: &'static str)
    requires
        digit < 10,
    ensures
        text@ == seq![digit_char(digit as nat)],
{
    proof {
        reveal_strlit("0");
        reveal_strlit("1");
        reveal_strlit("2");
        reveal_strlit("3");
        reveal_strlit("4");
        reveal_strlit("5");
        reveal_strlit("6");
        reveal_strlit("7");
        reveal_strlit("8");
        reveal_strlit("9");
    }
    let text = if digit == 0 {
        "0"
    } else if digit == 1 {
        "1"
    } else if digit == 2 {
        "2"
    } else if digit == 3 {
        "3"
    } else if digit == 4 {
        "4"
    } else if digit == 5 {
        "5"
    } else if digit == 6 {
        "6"
    } else if digit == 7 {
        "7"
    } else if digit == 8 {
        "8"
    } else {
        "9"
    };
    assert(text@ =~= seq![digit_char(digit as nat)]);
    text
}

/// Appends a number in decimal digits to a text.
pub fn push_decimal(text: &mut String, n: u64)
    ensures
        final(text)@ == old(text)@ + decimal_digits(n as nat),
    decreases n,
{
    if n >= 10 {
        push_decimal(text, n / 10);
    }
    text.push_str(digit_text(n % 10));
    assert(text@ =~= old(text)@ + decimal_digits(n as nat));
}

/// Appends a number with its sign in decimal digits to a text.
pub fn push_signed_decimal(text: &mut String, n: i64)
    ensures
        final(text)@ == old(text)@ + signed_decimal_digits(n as int),
{
    if n < 0 {
        proof {
            reveal_strlit("-");
        }
        text.push_str("-");
        let magnitude: u64 = ((-(n + 1)) as u64) + 1;
        push_decimal(text, magnitude);
        assert(text@ =~= old(text)@ + signed_decimal_digits(n as int));
    } else {
        push_decimal(text, n as u64);
    }
}

/// The filter of a bounding-box query on the point of a record.
pub open spec fn bbox_filter(
    min_lat: Seq<char>,
    min_lon: Seq<char>,
    max_lat: Seq<char>,
    max_lon: Seq<char>,
) -> Seq<char> {
    "in_bbox(geo_point_2d,"@ + min_lat + ","@ + min_lon + ","@ + max_lat + ","@ + max_lon + ")"@
}

/// Writes the filter of a bounding-box query from the four bounds as they
/// are to be printed.
pub fn bbox_query(min_lat: &str, min_lon: &str, max_lat: &str, max_lon: &str) -> (filter: String)
    ensures
        filter@ == bbox_filter(min_lat@, min_lon@, max_lat@, max_lon@),
{
    let mut filter = "in_bbox(geo_point_2d,".to_owned();
    filter.push_str(min_lat);
    filter.push_str(",");
    filter.push_str(min_lon);
    filter.push_str(",");
    filter.push_str(max_lat);
    filter.push_str(",");
    filter.push_str(max_lon);
    filter.push_str(")");
    filter
}

/// The address of the records that match a filter: the filter is
/// percent-encoded, the limit follows.
pub open spec fn records_address(base_url: Seq<char>, filter: Seq<u8>, limit: nat) -> Seq<char> {
    base_url + "?where="@ + percent_encoded(filter) + "&limit="@ + decimal_digits(limit)
}

/// The address of one page of the records that match a filter.
pub open spec fn page_address(base_url: Seq<char>, filter: Seq<u8>, limit: nat, offset: nat) -> Seq<
    char,
> {
    records_address(base_url, filter, limit) + "&offset="@ + decimal_digits(offset)
}

/// Writes the address of the first `limit` records that match a filter.
pub fn records_url(base_url: &str, filter: &str, limit: usize) -> (url: String)
    ensures
        url@ == records_address(base_url@, filter.spec_bytes(), limit as nat),
{
    let mut url = base_url.to_owned();
    url.push_str("?where=");
    let encoded = url_encode(filter);
    url.push_str(encoded.as_str());
    url.push_str("&limit=");
    push_decimal(&mut url, limit as u64);
    url
}

/// Writes the address of one page of the records that match a filter.
pub fn page_url(base_url: &str, filter: &str, limit: usize, offset: usize) -> (url: String)
    ensures
        url@ == page_address(base_url@, filter.spec_bytes(), limit as nat, offset as nat),
{
    let mut url = records_url(base_url, filter, limit);
    url.push_str("&offset=");
    push_decimal(&mut url, offset as u64);
    url
}

/// The address of the built-up area with an object identifier.
pub open spec fn object_address(base_url: Seq<char>, object_id: int) -> Seq<char> {
    base_url + "?where=OBJECTID%3D"@ + signed_decimal_digits(object_id) + "&outFields=*&f=geojson"@
}

/// Writes the address of the built-up area with an object identifier.
pub fn object_url(base_url: &str, object_id: i64) -> (url: String)
    ensures
        url@ == object_address(base_url@, object_id as int),
{
    let mut url = base_url.to_owned();
    url.push_str("?where=OBJECTID%3D");
    push_signed_decimal(&mut url, object_id);
    url.push_str("&outFields=*&f=geojson");
    url
}

} // verus!
