//! Shared value types: supported languages, file sizes, MIME types,
//! timestamps, URLs, colors, ranges and feature flags, with small
//! validation helpers.

use vstd::prelude::*;
use vstd::std_specs::cmp::PartialOrdSpec;

use crate::text::{
    dec_str, digit_char, exec_digit_char, fold_seq, fold_str, hex2, idx_of, lemma_idx_of,
    prefix_of, push_char, push_hex2, str_contains_char, str_eq, str_starts_with,
};

verus! {

/// The languages the keyword tables know. Unknown codes fall back to English.
#[derive(Clone, Copy, Debug, PartialEq, Eq, Structural, Hash)]
pub enum Language {
    English,
    Ukrainian,
    German,
}

impl Language {
    /// The language a (case-insensitive) two-letter code selects.
    pub open spec fn spec_from_code(code: Seq<char>) -> Language {
        if fold_seq(code) == "uk"@ {
            Language::Ukrainian
        } else if fold_seq(code) == "de"@ {
            Language::German
        } else {
            Language::English
        }
    }

    /// The code of each language.
    pub open spec fn spec_code(self) -> Seq<char> {
        match self {
            Language::English => "en"@,
            Language::Ukrainian => "uk"@,
            Language::German => "de"@,
        }
    }

    /// Selects the language for a code, falling back to English.
    pub fn from_code(code: &str) -> (r: Self)
        ensures
            r == Self::spec_from_code(code@),
    {
        let folded = fold_str(code);
        if str_eq(folded.as_str(), "uk") {
            Language::Ukrainian
        } else if str_eq(folded.as_str(), "de") {
            Language::German
        } else {
            Language::English
        }
    }

    /// The two-letter code.
    pub fn code(&self) -> (r: &'static str)
        ensures
            r@ == self.spec_code(),
    {
        match self {
            Language::English => "en",
            Language::Ukrainian => "uk",
            Language::German => "de",
        }
    }

    /// The language's own name.
    pub fn name(&self) -> (r: &'static str)
        ensures
            self is English ==> r@ == "English"@,
            self is Ukrainian ==> r@ == "Українська"@,
            self is German ==> r@ == "Deutsch"@,
    {
        match self {
            Language::English => "English",
            Language::Ukrainian => "Українська",
            Language::German => "Deutsch",
        }
    }
}

impl Default for Language {
    /// English is the default language.
    fn default() -> (r: Self)
        ensures
            r == Language::English,
    {
        Language::English
    }
}

/// A size in bytes.
#[derive(Clone, Copy, Debug, PartialEq, Eq, Structural, PartialOrd, Ord)]
pub struct FileSize(pub u64);

/// The scale divisor for each of the units B, KB, MB, GB, TB.
pub open spec fn size_scale(i: int) -> u64 {
    if i == 0 {
        1
    } else if i == 1 {
        1024
    } else if i == 2 {
        1048576
    } else if i == 3 {
        1073741824
    } else {
        1099511627776
    }
}

/// The unit index a byte count is displayed in: the largest unit, up to TB,
/// whose whole part is non-zero (B for anything below 1 KB).
pub open spec fn size_unit_idx(b: u64) -> int {
    if b < 1024 {
        0int
    } else if b < 1048576 {
        1int
    } else if b < 1073741824 {
        2int
    } else if b < 1099511627776 {
        3int
    } else {
        4int
    }
}

/// The unit suffix for each unit index.
pub open spec fn size_unit(i: int) -> Seq<char> {
    if i == 0 {
        "B"@
    } else if i == 1 {
        "KB"@
    } else if i == 2 {
        "MB"@
    } else if i == 3 {
        "GB"@
    } else {
        "TB"@
    }
}

/// The rendering of a byte count with one decimal place in its display
/// unit, rounded to nearest with ties to even — as "{:.1}" formatting
/// rounds — e.g. 5 MB renders as "5.0 MB" and 1940000 bytes as "1.9 MB".
pub open spec fn human_readable_spec(b: u64) -> Seq<char> {
    let i = size_unit_idx(b);
    let p = size_scale(i) as int;
    let num = b as int * 10;
    let q = num / p;
    let rem = num % p;
    let t = if 2 * rem < p {
        q
    } else if 2 * rem > p {
        q + 1
    } else if q % 2 == 0 {
        q
    } else {
        q + 1
    };
    dec_str((t / 10) as u64) + seq!['.'] + seq![digit_char((t % 10) as u64)] + seq![' ']
        + size_unit(i)
}

impl FileSize {
    /// A size given directly in bytes.
    pub fn bytes(size: u64) -> (r: Self)
        ensures
            r.0 == size,
    {
        FileSize(size)
    }

    /// A size given in kibibytes.
    pub fn kilobytes(size: u64) -> (r: Self)
        requires
            size * 1024 <= u64::MAX,
        ensures
            r.0 == size * 1024,
    {
        FileSize(size * 1024)
    }

    /// A size given in mebibytes.
    pub fn megabytes(size: u64) -> (r: Self)
        requires
            size * 1048576 <= u64::MAX,
        ensures
            r.0 == size * 1048576,
    {
        FileSize(size * 1024 * 1024)
    }

    /// A size given in gibibytes.
    pub fn gigabytes(size: u64) -> (r: Self)
        requires
            size * 1073741824 <= u64::MAX,
        ensures
            r.0 == size * 1073741824,
    {
        FileSize(size * 1024 * 1024 * 1024)
    }

    /// The raw byte count.
    pub fn as_bytes(&self) -> (r: u64)
        ensures
            r == self.0,
    {
        self.0
    }

    /// Renders the size with one decimal place (rounded to nearest, ties
    /// to even) in the largest fitting unit.
    pub fn human_readable(&self) -> (r: String)
        ensures
            r@ == human_readable_spec(self.0),
    {
        let b = self.0;
        let p: u64;
        let unit: &str;
        if b < 1024 {
            p = 1;
            unit = "B";
        } else if b < 1048576 {
            p = 1024;
            unit = "KB";
        } else if b < 1073741824 {
            p = 1048576;
            unit = "MB";
        } else if b < 1099511627776 {
            p = 1073741824;
            unit = "GB";
        } else {
            p = 1099511627776;
            unit = "TB";
        }
        let num: u128 = (b as u128) * 10;
        let q: u128 = num / (p as u128);
        let rem: u128 = num % (p as u128);
        let t: u128 = if 2 * rem < p as u128 {
            q
        } else if 2 * rem > p as u128 {
            q + 1
        } else if q % 2 == 0 {
            q
        } else {
            q + 1
        };
        proof {
            assert(q <= num);
            assert(t <= num + 1);
            assert(num + 1 <= u64::MAX as int * 10 + 1);
            assert(t / 10 <= u64::MAX);
        }
        let whole: u64 = (t / 10) as u64;
        let tenth: u64 = (t % 10) as u64;
        let mut out = crate::text::u64_to_dec(whole);
        push_char(&mut out, '.');
        push_char(&mut out, exec_digit_char(tenth));
        push_char(&mut out, ' ');
        out.append(unit);
        proof {
            assert(out@ =~= human_readable_spec(self.0));
        }
        out
    }
}

/// A MIME type, stored as its textual form.
#[derive(Clone, Debug, PartialEq, Eq)]
pub struct MimeType(String);

/// The file extension conventionally used for an image MIME type.
pub open spec fn extension_spec(m: Seq<char>) -> Option<Seq<char>> {
    if m == "image/jpeg"@ {
        Some("jpg"@)
    } else if m == "image/png"@ {
        Some("png"@)
    } else if m == "image/gif"@ {
        Some("gif"@)
    } else if m == "image/webp"@ {
        Some("webp"@)
    } else if m == "image/svg+xml"@ {
        Some("svg"@)
    } else if m == "image/bmp"@ {
        Some("bmp"@)
    } else if m == "image/tiff"@ {
        Some("tiff"@)
    } else {
        None
    }
}

impl View for MimeType {
    type V = Seq<char>;

    closed spec fn view(&self) -> Seq<char> {
        self.0@
    }
}

impl MimeType {
    /// Wraps a MIME type string.
    pub fn new(mime: String) -> (r: Self)
        ensures
            r@ == mime@,
    {
        MimeType(mime)
    }

    /// Whether this is any image type.
    pub fn is_image(&self) -> (r: bool)
        ensures
            r == prefix_of("image/"@, self@),
    {
        str_starts_with(self.0.as_str(), "image/")
    }

    /// Whether this is exactly image/jpeg.
    pub fn is_jpeg(&self) -> (r: bool)
        ensures
            r == (self@ == "image/jpeg"@),
    {
        str_eq(self.0.as_str(), "image/jpeg")
    }

    /// Whether this is exactly image/png.
    pub fn is_png(&self) -> (r: bool)
        ensures
            r == (self@ == "image/png"@),
    {
        str_eq(self.0.as_str(), "image/png")
    }

    /// Whether this is exactly image/gif.
    pub fn is_gif(&self) -> (r: bool)
        ensures
            r == (self@ == "image/gif"@),
    {
        str_eq(self.0.as_str(), "image/gif")
    }

    /// Whether this is exactly image/webp.
    pub fn is_webp(&self) -> (r: bool)
        ensures
            r == (self@ == "image/webp"@),
    {
        str_eq(self.0.as_str(), "image/webp")
    }

    /// The conventional file extension, for the image types this library
    /// knows about.
    pub fn extension(&self) -> (r: Option<&str>)
        ensures
            match r {
                Some(e) => extension_spec(self@) == Some(e@),
                None => extension_spec(self@) is None,
            },
    {
        let s = self.0.as_str();
        if str_eq(s, "image/jpeg") {
            Some("jpg")
        } else if str_eq(s, "image/png") {
            Some("png")
        } else if str_eq(s, "image/gif") {
            Some("gif")
        } else if str_eq(s, "image/webp") {
            Some("webp")
        } else if str_eq(s, "image/svg+xml") {
            Some("svg")
        } else if str_eq(s, "image/bmp") {
            Some("bmp")
        } else if str_eq(s, "image/tiff") {
            Some("tiff")
        } else {
            None
        }
    }

    /// The textual form.
    pub fn as_str(&self) -> (r: &str)
        ensures
            r@ == self@,
    {
        self.0.as_str()
    }
}

/// A timestamp carried as its textual (RFC 3339) form.
#[derive(Clone, Debug, PartialEq, Eq)]
pub struct Timestamp(String);

impl View for Timestamp {
    type V = Seq<char>;

    closed spec fn view(&self) -> Seq<char> {
        self.0@
    }
}

impl Timestamp {
    /// The current time, as the clock reports it.
    pub fn now() -> Self {
        Timestamp(crate::ext::now_rfc3339())
    }

    /// Wraps an already-rendered timestamp.
    pub fn from_string(s: String) -> (r: Self)
        ensures
            r@ == s@,
    {
        Timestamp(s)
    }

    /// The textual form.
    pub fn as_str(&self) -> (r: &str)
        ensures
            r@ == self@,
    {
        self.0.as_str()
    }

    /// A relative description of the timestamp.
    pub fn format_relative(&self) -> (r: String)
        ensures
            r@ == "just now"@,
    {
        String::from_str("just now")
    }
}

/// Whether a URL is accepted: it must carry an explicit http or https scheme.
pub open spec fn url_valid_spec(s: Seq<char>) -> bool {
    prefix_of("http://"@, s) || prefix_of("https://"@, s)
}

/// The host part of an accepted URL: what stands between the scheme and the
/// first slash after it (or the end).
pub open spec fn url_domain_spec(s: Seq<char>) -> Option<Seq<char>> {
    if prefix_of("https://"@, s) {
        let rest = s.skip(8);
        Some(rest.take(idx_of(rest, '/')))
    } else if prefix_of("http://"@, s) {
        let rest = s.skip(7);
        Some(rest.take(idx_of(rest, '/')))
    } else {
        None
    }
}

/// A URL that passed the scheme check.
#[derive(Clone, Debug, PartialEq, Eq)]
pub struct Url(String);

impl View for Url {
    type V = Seq<char>;

    closed spec fn view(&self) -> Seq<char> {
        self.0@
    }
}

impl Url {
    /// Accepts a URL with an http or https scheme; rejects anything else.
    pub fn new(url: String) -> (r: Result<Self, String>)
        ensures
            match r {
                Ok(u) => url_valid_spec(url@) && u@ == url@,
                Err(m) => !url_valid_spec(url@) && m@ == "Invalid URL"@,
            },
    {
        if Self::is_valid(url.as_str()) {
            Ok(Url(url))
        } else {
            Err(String::from_str("Invalid URL"))
        }
    }

    /// The scheme check alone.
    pub fn is_valid(url: &str) -> (r: bool)
        ensures
            r == url_valid_spec(url@),
    {
        str_starts_with(url, "http://") || str_starts_with(url, "https://")
    }

    /// The textual form.
    pub fn as_str(&self) -> (r: &str)
        ensures
            r@ == self@,
    {
        self.0.as_str()
    }

    /// The host part: the text between the scheme and the first slash.
    pub fn domain(&self) -> (r: Option<String>)
        ensures
            match r {
                Some(d) => url_domain_spec(self@) == Some(d@),
                None => url_domain_spec(self@) is None,
            },
    {
        let s = self.0.as_str();
        proof {
            reveal_strlit("https://");
            reveal_strlit("http://");
        }
        let start: usize;
        if str_starts_with(s, "https://") {
            start = 8;
        } else if str_starts_with(s, "http://") {
            start = 7;
        } else {
            return None;
        }
        let ghost rest = s@.skip(start as int);
        let n = s.unicode_len();
        let mut i: usize = start;
        while i < n && s.get_char(i) != '/'
            invariant
                n == s@.len(),
                start <= i <= n,
                forall|k: int| start <= k < i ==> s@[k] != '/',
            decreases n - i,
    {
            i = i + 1;
        }
        proof {
            lemma_idx_of(rest, '/');
            assert(forall|k: int| 0 <= k < rest.len() ==> rest[k] == s@[k + start]);
            let d = idx_of(rest, '/');
            if d < i - start {
                assert(s@[d + start] == '/');
            }
            if d > i - start {
                assert(i < n);
                assert(rest[i - start] == '/');
            }
            assert(d == i - start);
        }
        let domain = s.substring_char(start, i);
        proof {
            assert(domain@ =~= rest.take(idx_of(rest, '/')));
        }
        Some(String::from_str(domain))
    }
}

/// An RGBA color.
#[derive(Clone, Copy, Debug, PartialEq, Eq, Structural)]
pub struct Color {
    pub r: u8,
    pub g: u8,
    pub b: u8,
    pub a: u8,
}

/// The rendering of the alpha channel as a decimal fraction of 255, with
/// three places (exactly "0" and "1" at the extremes).
pub open spec fn alpha_spec(a: u8) -> Seq<char> {
    if a == 255 {
        "1"@
    } else if a == 0 {
        "0"@
    } else {
        let t = a as int * 1000 / 255;
        seq!['0', '.', digit_char((t / 100) as u64), digit_char(((t / 10) % 10) as u64), digit_char((t % 10) as u64)]
    }
}

/// The "#rrggbb" rendering of a color.
pub open spec fn hex_spec(c: Color) -> Seq<char> {
    seq!['#'] + hex2(c.r) + hex2(c.g) + hex2(c.b)
}

/// The "rgba(r, g, b, a)" rendering of a color, alpha as a fraction.
pub open spec fn rgba_spec(c: Color) -> Seq<char> {
    "rgba("@ + dec_str(c.r as u64) + ", "@ + dec_str(c.g as u64) + ", "@ + dec_str(c.b as u64)
        + ", "@ + alpha_spec(c.a) + ")"@
}

impl Color {
    /// An opaque color from its three channels.
    pub fn rgb(r: u8, g: u8, b: u8) -> (c: Self)
        ensures
            c == (Color { r, g, b, a: 255u8 }),
    {
        Color { r, g, b, a: 255 }
    }

    /// A color from all four channels.
    pub fn rgba(r: u8, g: u8, b: u8, a: u8) -> (c: Self)
        ensures
            c == (Color { r, g, b, a }),
    {
        Color { r, g, b, a }
    }

    /// Renders as "#rrggbb" in lower-case hexadecimal.
    pub fn to_hex(&self) -> (s: String)
        ensures
            s@ == hex_spec(*self),
    {
        let mut out = String::new();
        push_char(&mut out, '#');
        push_hex2(&mut out, self.r);
        push_hex2(&mut out, self.g);
        push_hex2(&mut out, self.b);
        proof {
            assert(out@ =~= hex_spec(*self));
        }
        out
    }

    /// Renders as "rgba(r, g, b, a)" with the alpha channel as a decimal
    /// fraction of 255.
    pub fn to_rgba(&self) -> (s: String)
        ensures
            s@ == rgba_spec(*self),
    {
        let mut out = String::from_str("rgba(");
        out.append(crate::text::u64_to_dec(self.r as u64).as_str());
        out.append(", ");
        out.append(crate::text::u64_to_dec(self.g as u64).as_str());
        out.append(", ");
        out.append(crate::text::u64_to_dec(self.b as u64).as_str());
        out.append(", ");
        if self.a == 255 {
            out.append("1");
        } else if self.a == 0 {
            out.append("0");
        } else {
            let t: u64 = (self.a as u64) * 1000 / 255;
            push_char(&mut out, '0');
            push_char(&mut out, '.');
            push_char(&mut out, exec_digit_char(t / 100));
            push_char(&mut out, exec_digit_char((t / 10) % 10));
            push_char(&mut out, exec_digit_char(t % 10));
            proof {
                assert(seq!['0', '.'] + seq![digit_char((t / 100) as u64)] + seq![digit_char(((t / 10) % 10) as u64)] + seq![digit_char((t % 10) as u64)] =~= alpha_spec(self.a));
            }
        }
        out.append(")");
        proof {
            assert(out@ =~= rgba_spec(*self));
        }
        out
    }
}

impl Default for Color {
    /// Opaque black.
    fn default() -> (c: Self)
        ensures
            c == (Color { r: 0u8, g: 0u8, b: 0u8, a: 255u8 }),
    {
        Color::rgb(0, 0, 0)
    }
}

/// Anything that can check its own consistency.
pub trait Validate {
    fn validate(&self) -> Result<(), String>;
}

/// A loose shape check on an email address: it must contain an '@' and a dot.
pub fn validate_email(email: &str) -> (r: bool)
    ensures
        r == (email@.contains('@') && email@.contains('.')),
{
    str_contains_char(email, '@') && str_contains_char(email, '.')
}

/// Whether the text parses as a UUID; a function of the characters alone.
pub uninterp spec fn uuid_syntax_ok(s: Seq<char>) -> bool;

/// Relies on uuid::Uuid::parse_str: accepts exactly the textual UUID forms,
/// determined by the input characters alone.
#[verifier::external_body]
pub fn validate_uuid(s: &str) -> (r: bool)
    ensures
        r == uuid_syntax_ok(s@),
{
    uuid::Uuid::parse_str(s).is_ok()
}

/// An inclusive range over any partially ordered type.
#[derive(Clone, Copy, Debug, PartialEq)]
pub struct Range<T> {
    pub min: T,
    pub max: T,
}

impl<T: PartialOrd> Range<T> {
    /// Accepts the bounds when `min <= max`.
    pub fn new(min: T, max: T) -> (r: Result<Self, String>)
        ensures
            T::obeys_partial_cmp_spec() ==> match r {
                Ok(rng) => {
                    &&& min.partial_cmp_spec(&max) matches Some(
                        core::cmp::Ordering::Less
                        | core::cmp::Ordering::Equal,
                    )
                    &&& rng.min == min
                    &&& rng.max == max
                },
                Err(m) => {
                    &&& !(min.partial_cmp_spec(&max) matches Some(
                        core::cmp::Ordering::Less
                        | core::cmp::Ordering::Equal,
                    ))
                    &&& m@ == "Min must be less than or equal to max"@
                },
            },
    {
        if min.le(&max) {
            Ok(Range { min, max })
        } else {
            Err(String::from_str("Min must be less than or equal to max"))
        }
    }

    /// Whether the value lies between the bounds, inclusively.
    pub fn contains(&self, value: &T) -> (r: bool)
        ensures
            T::obeys_partial_cmp_spec() ==> r == {
                &&& value.partial_cmp_spec(&self.min) matches Some(
                    core::cmp::Ordering::Greater
                    | core::cmp::Ordering::Equal,
                )
                &&& value.partial_cmp_spec(&self.max) matches Some(
                    core::cmp::Ordering::Less
                    | core::cmp::Ordering::Equal,
                )
            },
    {
        value.ge(&self.min) && value.le(&self.max)
    }
}

/// Feature switches for optional subsystems.
#[derive(Clone, Debug, PartialEq, Eq, Structural)]
pub struct Features {
    pub vision_enabled: bool,
    pub batch_upload_enabled: bool,
}

impl Default for Features {
    /// Every feature starts enabled.
    fn default() -> (r: Self)
        ensures
            r.vision_enabled && r.batch_upload_enabled,
    {
        Features { vision_enabled: true, batch_upload_enabled: true }
    }
}

} // verus!
