//! IP attribution records and the rules that decide how they are shown.

use vstd::prelude::*;
use vstd::string::StringExecFns;
use crate::error::AppError;
use crate::urls::{url_error_of, url_parse_error, url_scheme, url_scheme_of};
use crate::text::{decimal, decimal_string,
    chars_eq, chars_eq_ignore_case, chars_eq_str, chars_of, contains, contains_chars, eq_ignore_case,
    join, join_chars, lower, string_of, trim, trimmed, views,
};

verus! {

/// Where an IP address belongs, as the IP database reports it.
#[derive(Debug, Clone)]
pub struct IpLocation {
    pub country_name: String,
    pub region_name: String,
    pub city_name: String,
    pub district_name: String,
    pub isp_domain: String,
}

/// The text of each field of an [`IpLocation`].
pub struct IpLocationView {
    pub country_name: Seq<char>,
    pub region_name: Seq<char>,
    pub city_name: Seq<char>,
    pub district_name: Seq<char>,
    pub isp_domain: Seq<char>,
}

impl View for IpLocation {
    type V = IpLocationView;

    open spec fn view(&self) -> IpLocationView {
        IpLocationView {
            country_name: self.country_name@,
            region_name: self.region_name@,
            city_name: self.city_name@,
            district_name: self.district_name@,
            isp_domain: self.isp_domain@,
        }
    }
}

impl IpLocation {
    /// A field-by-field copy.
    pub fn duplicate(&self) -> (r: Self)
        ensures
            r == *self,
    {
        IpLocation {
            country_name: self.country_name.clone(),
            region_name: self.region_name.clone(),
            city_name: self.city_name.clone(),
            district_name: self.district_name.clone(),
            isp_domain: self.isp_domain.clone(),
        }
    }
}

/// The fields in the order in which they are shown.
pub open spec fn location_fields(l: IpLocationView) -> Seq<Seq<char>> {
    seq![l.country_name, l.region_name, l.city_name, l.district_name, l.isp_domain]
}

/// Placeholder names that the database uses for unassigned ranges.
pub open spec fn is_noise_part(v: Seq<char>) -> bool {
    v == "IANA"@ || v == "Private-Use"@
}

/// A part that marks a private network.
pub open spec fn is_private_part(v: Seq<char>) -> bool {
    contains(v, "局域网"@) || eq_ignore_case(v, "private-use"@)
}

/// The trimmed, non-empty, non-placeholder fields, each kept once.
pub open spec fn shown_parts(fields: Seq<Seq<char>>) -> Seq<Seq<char>>
    decreases fields.len(),
{
    if fields.len() == 0 {
        Seq::empty()
    } else {
        let acc = shown_parts(fields.drop_last());
        let v = trim(fields.last());
        if v.len() > 0 && !is_noise_part(v) && !acc.contains(v) {
            acc.push(v)
        } else {
            acc
        }
    }
}

/// The text shown beside an IP address.
pub open spec fn display_text_spec(l: IpLocationView) -> Seq<char> {
    let parts = shown_parts(location_fields(l));
    if exists|i: int| 0 <= i < parts.len() && is_private_part(#[trigger] parts[i]) {
        "内网 IP"@
    } else {
        join(parts, " "@)
    }
}

fn is_noise_location_part(value: &Vec<char>) -> (r: bool)
    ensures
        r == is_noise_part(value@),
{
    chars_eq_str(value, "IANA") || chars_eq_str(value, "Private-Use")
}

fn is_private_location_part(value: &Vec<char>) -> (r: bool)
    ensures
        r == is_private_part(value@),
{
    let marker = chars_of("局域网");
    let private_use = chars_of("private-use");
    contains_chars(value, &marker) || chars_eq_ignore_case(value, &private_use)
}

/// Whether `parts` holds `v`.
fn parts_contain(parts: &Vec<Vec<char>>, v: &Vec<char>) -> (r: bool)
    ensures
        r == views(parts@).contains(v@),
{
    let mut i: usize = 0;
    while i < parts.len()
        invariant
            i <= parts@.len(),
            forall|j: int| 0 <= j < i ==> parts@[j]@ != v@,
        decreases parts@.len() - i,
    {
        if chars_eq(&parts[i], v) {
            assert(views(parts@)[i as int] == v@);
            return true;
        }
        i = i + 1;
    }
    proof {
        if views(parts@).contains(v@) {
            let j = choose|j: int| 0 <= j < views(parts@).len() && views(parts@)[j] == v@;
            assert(parts@[j]@ == v@);
        }
    }
    false
}

impl IpLocation {
    /// Every field is empty.
    pub fn is_empty(&self) -> (r: bool)
        ensures
            r == (self.country_name@.len() == 0 && self.region_name@.len() == 0
                && self.city_name@.len() == 0 && self.district_name@.len() == 0
                && self.isp_domain@.len() == 0),
    {
        self.country_name.as_str().unicode_len() == 0 && self.region_name.as_str().unicode_len()
            == 0 && self.city_name.as_str().unicode_len() == 0
            && self.district_name.as_str().unicode_len() == 0
            && self.isp_domain.as_str().unicode_len() == 0
    }

    /// The location as one line: the distinct meaningful fields separated by spaces, or
    /// `内网 IP` when any of them names a private network.
    pub fn display_text(&self) -> (r: String)
        ensures
            r@ == display_text_spec(self@),
    {
        let fields: [&String; 5] = [
            &self.country_name,
            &self.region_name,
            &self.city_name,
            &self.district_name,
            &self.isp_domain,
        ];
        let ghost fs = location_fields(self@);
        let mut parts: Vec<Vec<char>> = Vec::new();
        let mut i: usize = 0;
        while i < 5
            invariant
                i <= 5,
                fs == location_fields(self@),
                forall|k: int| 0 <= k < 5 ==> fields@[k]@ == #[trigger] fs[k],
                views(parts@) == shown_parts(fs.take(i as int)),
            decreases 5 - i,
        {
            let value = trimmed(fields[i].as_str());
            assert(fs.take(i + 1).drop_last() =~= fs.take(i as int));
            assert(fs.take(i + 1).last() == fs[i as int]);
            if value.len() > 0 && !is_noise_location_part(&value) && !parts_contain(&parts, &value) {
                let ghost prev = views(parts@);
                parts.push(value);
                assert(views(parts@) =~= prev.push(trim(fs[i as int])));
            }
            i = i + 1;
        }
        assert(fs.take(5) =~= fs);
        let ghost ps = views(parts@);
        let mut k: usize = 0;
        while k < parts.len()
            invariant
                k <= parts@.len(),
                ps == views(parts@),
                ps == shown_parts(location_fields(self@)),
                forall|j: int| 0 <= j < k ==> !is_private_part(#[trigger] ps[j]),
            decreases parts@.len() - k,
        {
            if is_private_location_part(&parts[k]) {
                assert(is_private_part(ps[k as int]));
                return String::from_str("内网 IP");
            }
            k = k + 1;
        }
        let sep = chars_of(" ");
        let joined = join_chars(&parts, &sep);
        string_of(&joined)
    }
}

/// An IP address by its octets or segments.
#[derive(Debug, Clone, Copy, PartialEq, Eq)]
pub enum IpAddress {
    V4([u8; 4]),
    V6([u16; 8]),
}

/// Private, loopback, link-local, unspecified and carrier-grade NAT addresses.
pub open spec fn is_private_or_local_spec(ip: IpAddress) -> bool {
    match ip {
        IpAddress::V4(o) => {
            ||| o[0] == 10
            ||| (o[0] == 172 && 16 <= o[1] <= 31)
            ||| (o[0] == 192 && o[1] == 168)
            ||| o[0] == 127
            ||| (o[0] == 169 && o[1] == 254)
            ||| (o[0] == 0 && o[1] == 0 && o[2] == 0 && o[3] == 0)
            ||| (o[0] == 100 && 64 <= o[1] <= 127)
        },
        IpAddress::V6(g) => {
            ||| (g[0] == 0 && g[1] == 0 && g[2] == 0 && g[3] == 0 && g[4] == 0 && g[5] == 0
                && g[6] == 0 && g[7] == 1)
            ||| (g[0] == 0 && g[1] == 0 && g[2] == 0 && g[3] == 0 && g[4] == 0 && g[5] == 0
                && g[6] == 0 && g[7] == 0)
            ||| (g[0] & 0xfe00u16) == 0xfc00u16
            ||| (g[0] & 0xffc0u16) == 0xfe80u16
        },
    }
}

/// Whether `ip` belongs to a private or local network.
pub fn is_private_or_local_ip(ip: &IpAddress) -> (r: bool)
    ensures
        r == is_private_or_local_spec(*ip),
{
    match ip {
        IpAddress::V4(o) => {
            o[0] == 10 || (o[0] == 172 && 16 <= o[1] && o[1] <= 31) || (o[0] == 192 && o[1]
                == 168) || o[0] == 127 || (o[0] == 169 && o[1] == 254) || (o[0] == 0 && o[1] == 0
                && o[2] == 0 && o[3] == 0) || (o[0] == 100 && 64 <= o[1] && o[1] <= 127)
        },
        IpAddress::V6(g) => {
            let loopback = g[0] == 0 && g[1] == 0 && g[2] == 0 && g[3] == 0 && g[4] == 0 && g[5]
                == 0 && g[6] == 0 && g[7] == 1;
            let unspecified = g[0] == 0 && g[1] == 0 && g[2] == 0 && g[3] == 0 && g[4] == 0
                && g[5] == 0 && g[6] == 0 && g[7] == 0;
            loopback || unspecified || (g[0] & 0xfe00u16) == 0xfc00u16 || (g[0] & 0xffc0u16)
                == 0xfe80u16
        },
    }
}

/// The location record for private and local addresses.
pub fn private_network_location() -> (r: IpLocation)
    ensures
        r.country_name@ == "内网 IP"@,
        r.region_name@.len() == 0,
        r.city_name@.len() == 0,
        r.district_name@.len() == 0,
        r.isp_domain@.len() == 0,
{
    IpLocation {
        country_name: String::from_str("内网 IP"),
        region_name: String::new(),
        city_name: String::new(),
        district_name: String::new(),
        isp_domain: String::new(),
    }
}

/// The file the IP database is kept in, in the data directory.
pub const IPDB_FILE_NAME: &'static str = "qqwry.ipdb";

/// Where the IP database is downloaded from unless configured otherwise.
pub const DEFAULT_IPDB_DOWNLOAD_URL: &'static str = "https://raw.githubusercontent.com/nmgliangwei/qqwry.ipdb/main/qqwry.ipdb";

/// The largest IP database downloaded unless configured otherwise, in bytes.
pub const DEFAULT_IPDB_MAX_BYTES: u64 = 67108864;

/// The setting of the download address.
pub const IPDB_URL_ENV: &'static str = "EMBYPANEL_IPDB_URL";

/// The setting of the largest download.
pub const IPDB_MAX_BYTES_ENV: &'static str = "EMBYPANEL_IPDB_MAX_BYTES";

/// The setting of the expected SHA-256 digest.
pub const IPDB_SHA256_ENV: &'static str = "EMBYPANEL_IPDB_SHA256";

/// The lower-case hexadecimal digit of a value below 16.
pub open spec fn hex_digit(v: nat) -> char {
    if v < 10 {
        (('0' as u32) + v) as char
    } else {
        (('a' as u32) + v - 10) as char
    }
}

/// Bytes as lower-case hexadecimal, two digits each.
pub open spec fn hex_of(bytes: Seq<u8>) -> Seq<char>
    decreases bytes.len(),
{
    if bytes.len() == 0 {
        Seq::empty()
    } else {
        hex_of(bytes.drop_last()) + seq![hex_digit((bytes.last() / 16) as nat), hex_digit((bytes.last() % 16) as nat)]
    }
}

fn hex_char(v: u8) -> (c: char)
    requires
        v < 16,
    ensures
        c == hex_digit(v as nat),
{
    if v < 10 {
        (48u8 + v) as char
    } else {
        (87u8 + v) as char
    }
}

/// A digest as lower-case hexadecimal.
pub fn sha256_hex(digest: &[u8]) -> (r: String)
    ensures
        r@ == hex_of(digest@),
{
    let mut out: Vec<char> = Vec::new();
    let mut i: usize = 0;
    while i < digest.len()
        invariant
            i <= digest@.len(),
            out@ == hex_of(digest@.take(i as int)),
        decreases digest@.len() - i,
    {
        let b = digest[i];
        out.push(hex_char(b / 16));
        out.push(hex_char(b % 16));
        assert(digest@.take(i + 1).drop_last() =~= digest@.take(i as int));
        assert(out@ =~= hex_of(digest@.take(i + 1)));
        i = i + 1;
    }
    assert(digest@.take(digest@.len() as int) =~= digest@);
    string_of(&out)
}

/// The largest download: the setting when it is a positive whole number (after trimming),
/// the default when the setting is missing or blank.
pub open spec fn max_bytes_spec(value: Option<Seq<char>>) -> Result<u64, Seq<char>> {
    match value {
        Some(v) if trim(v).len() > 0 => match crate::text::parse_unsigned(trim(v), u64::MAX as nat) {
            Some(n) => if n > 0 {
                Ok(n as u64)
            } else {
                Err(IPDB_MAX_BYTES_ENV@ + " must be a positive integer"@)
            },
            None => Err(IPDB_MAX_BYTES_ENV@ + " must be a positive integer"@),
        },
        _ => Ok(DEFAULT_IPDB_MAX_BYTES),
    }
}

pub fn configured_ipdb_max_bytes(value: Option<&str>) -> (r: Result<u64, String>)
    ensures
        match r {
            Ok(n) => max_bytes_spec(crate::text::opt_str_view(value)) == Ok::<u64, Seq<char>>(n),
            Err(e) => max_bytes_spec(crate::text::opt_str_view(value)) == Err::<u64, Seq<char>>(e@),
        },
{
    let t = match value {
        Some(v) => trimmed(v),
        None => {
            return Ok(DEFAULT_IPDB_MAX_BYTES);
        },
    };
    if t.len() == 0 {
        return Ok(DEFAULT_IPDB_MAX_BYTES);
    }
    match crate::text::parse_unsigned_chars(&t, u64::MAX as u128) {
        Some(n) => if n > 0 {
            Ok(n as u64)
        } else {
            let mut e = String::from_str(IPDB_MAX_BYTES_ENV);
            e.append(" must be a positive integer");
            Err(e)
        },
        None => {
            let mut e = String::from_str(IPDB_MAX_BYTES_ENV);
            e.append(" must be a positive integer");
            Err(e)
        },
    }
}

/// An ASCII hexadecimal digit.
pub open spec fn is_hex_char(c: char) -> bool {
    ('0' <= c <= '9') || ('a' <= c <= 'f') || ('A' <= c <= 'F')
}

/// The expected digest: the setting trimmed and in ASCII lower case when it is 64 hexadecimal
/// digits, `None` when missing or blank.
pub open spec fn expected_digest_spec(value: Option<Seq<char>>) -> Result<Option<Seq<char>>, Seq<char>> {
    match value {
        Some(v) => {
            let d = lower(trim(v));
            if d.len() == 0 {
                Ok(None)
            } else if crate::users_api::byte_len(d) == 64 && forall|i: int| 0 <= i < d.len() ==> is_hex_char(#[trigger] d[i]) {
                Ok(Some(d))
            } else {
                Err(IPDB_SHA256_ENV@ + " must contain 64 hexadecimal characters"@)
            }
        },
        None => Ok(None),
    }
}

pub fn configured_ipdb_sha256(value: Option<&str>) -> (r: Result<Option<String>, String>)
    ensures
        match r {
            Ok(Some(d)) => expected_digest_spec(crate::text::opt_str_view(value)) == Ok::<Option<Seq<char>>, Seq<char>>(Some(d@)),
            Ok(None) => expected_digest_spec(crate::text::opt_str_view(value)) == Ok::<Option<Seq<char>>, Seq<char>>(None),
            Err(e) => expected_digest_spec(crate::text::opt_str_view(value)) == Err::<Option<Seq<char>>, Seq<char>>(e@),
        },
{
    let v = match value {
        Some(v) => v,
        None => {
            return Ok(None);
        },
    };
    let d = crate::text::lower_chars(&trimmed(v));
    if d.len() == 0 {
        return Ok(None);
    }
    let ds = string_of(&d);
    let mut all_hex = true;
    let mut i: usize = 0;
    while i < d.len()
        invariant
            i <= d@.len(),
            all_hex == forall|j: int| 0 <= j < i ==> is_hex_char(#[trigger] d@[j]),
        decreases d@.len() - i,
    {
        let c = d[i];
        if !(('0' <= c && c <= '9') || ('a' <= c && c <= 'f') || ('A' <= c && c <= 'F')) {
            all_hex = false;
        }
        i = i + 1;
    }
    let fits = crate::users_api::fits_bytes(ds.as_str(), 64) && !crate::users_api::fits_bytes(ds.as_str(), 63);
    if fits && all_hex {
        Ok(Some(ds))
    } else {
        let mut e = String::from_str(IPDB_SHA256_ENV);
        e.append(" must contain 64 hexadecimal characters");
        Err(e)
    }
}

/// What a lookup of an address does.
#[derive(Debug)]
pub enum LookupStep {
    /// Nothing to look up: the address is blank, `--`, or not an address.
    Skip,
    /// A private or local address: shown as the private network.
    Private(IpLocation),
    /// Look the trimmed address up in the IP database.
    Query(String),
}

/// The step of looking an address up, given the trimmed text parsed as an address.
pub fn lookup_step(ip: &str, parsed: Option<IpAddress>) -> (r: LookupStep)
    ensures
        (trim(ip@).len() == 0 || trim(ip@) == "--"@ || parsed is None) ==> r is Skip,
        !(trim(ip@).len() == 0 || trim(ip@) == "--"@) && parsed is Some && is_private_or_local_spec(
            parsed->0,
        ) ==> (r matches LookupStep::Private(l) && l.country_name@ == "内网 IP"@ && l.region_name@.len()
            == 0 && l.city_name@.len() == 0 && l.district_name@.len() == 0 && l.isp_domain@.len() == 0),
        !(trim(ip@).len() == 0 || trim(ip@) == "--"@) && parsed is Some && !is_private_or_local_spec(
            parsed->0,
        ) ==> (r matches LookupStep::Query(q) && q@ == trim(ip@)),
{
    let t = trimmed(ip);
    if t.len() == 0 || crate::text::chars_eq_str(&t, "--") {
        return LookupStep::Skip;
    }
    match parsed {
        None => LookupStep::Skip,
        Some(a) => if is_private_or_local_ip(&a) {
            LookupStep::Private(private_network_location())
        } else {
            LookupStep::Query(string_of(&t))
        },
    }
}

/// The location of a database record, `None` when every field is blank.
pub fn location_from_fields(
    country_name: Option<&str>,
    region_name: Option<&str>,
    city_name: Option<&str>,
    district_name: Option<&str>,
    isp_domain: Option<&str>,
) -> (r: Option<IpLocation>)
    ensures
        ({
            let l = IpLocationView {
                country_name: field_text(country_name),
                region_name: field_text(region_name),
                city_name: field_text(city_name),
                district_name: field_text(district_name),
                isp_domain: field_text(isp_domain),
            };
            match r {
                Some(loc) => loc@ == l && !location_empty(l),
                None => location_empty(l),
            }
        }),
{
    let loc = IpLocation {
        country_name: String::from_str(field_or_empty(country_name)),
        region_name: String::from_str(field_or_empty(region_name)),
        city_name: String::from_str(field_or_empty(city_name)),
        district_name: String::from_str(field_or_empty(district_name)),
        isp_domain: String::from_str(field_or_empty(isp_domain)),
    };
    if loc.is_empty() {
        None
    } else {
        Some(loc)
    }
}

/// Every field of a location is empty.
pub open spec fn location_empty(l: IpLocationView) -> bool {
    l.country_name.len() == 0 && l.region_name.len() == 0 && l.city_name.len() == 0
        && l.district_name.len() == 0 && l.isp_domain.len() == 0
}

pub open spec fn field_text(o: Option<&str>) -> Seq<char> {
    match o {
        Some(s) => s@,
        None => ""@,
    }
}

fn field_or_empty(o: Option<&str>) -> (r: &str)
    ensures
        r@ == field_text(o),
{
    match o {
        Some(s) => s,
        None => "",
    }
}


/// The address the IP database is downloaded from: the setting trimmed when it is not blank,
/// else the default; it must parse as a URL (else a URL error) with the scheme `http` or
/// `https` (else a configuration error).
pub fn configured_ipdb_url(value: Option<&str>) -> (r: Result<String, AppError>)
    ensures
        ({
            let chosen = match value {
                Some(v) => if trim(v@).len() > 0 {
                    trim(v@)
                } else {
                    DEFAULT_IPDB_DOWNLOAD_URL@
                },
                None => DEFAULT_IPDB_DOWNLOAD_URL@,
            };
            match url_error_of(chosen) {
                Some(e) => (r matches Err(AppError::Url(m)) && m@ == e),
                None => if url_scheme_of(chosen) == Some("http"@) || url_scheme_of(chosen) == Some(
                    "https"@,
                ) {
                    (r matches Ok(u) && u@ == chosen)
                } else {
                    (r matches Err(AppError::Config(m)) && m@ == IPDB_URL_ENV@
                        + " must use http or https"@)
                },
            }
        }),
{
    let chosen = match value {
        Some(v) => {
            let t = trimmed(v);
            if t.len() > 0 {
                string_of(&t)
            } else {
                String::from_str(DEFAULT_IPDB_DOWNLOAD_URL)
            }
        },
        None => String::from_str(DEFAULT_IPDB_DOWNLOAD_URL),
    };
    match url_parse_error(chosen.as_str()) {
        Some(e) => {
            return Err(AppError::Url(e));
        },
        None => {},
    }
    let web = match url_scheme(chosen.as_str()) {
        Some(scheme) => crate::strmap::str_eq(scheme.as_str(), "http") || crate::strmap::str_eq(
            scheme.as_str(),
            "https",
        ),
        None => false,
    };
    if web {
        Ok(chosen)
    } else {
        let mut m = String::from_str(IPDB_URL_ENV);
        m.append(" must use http or https");
        Err(AppError::Config(m))
    }
}

/// `IP database exceeds the configured <max> byte limit`.
pub open spec fn too_large_message(max_bytes: u64) -> Seq<char> {
    "IP database exceeds the configured "@ + decimal(max_bytes as nat) + " byte limit"@
}

fn too_large(max_bytes: u64) -> (r: AppError)
    ensures
        r matches AppError::BadGateway(m) && m@ == too_large_message(max_bytes),
{
    let mut m = String::from_str("IP database exceeds the configured ");
    let n = decimal_string(max_bytes);
    m.append(n.as_str());
    m.append(" byte limit");
    AppError::BadGateway(m)
}

/// A download announced as larger than the limit is refused before it starts.
pub fn check_announced_length(content_length: Option<u64>, max_bytes: u64) -> (r: Result<(), AppError>)
    ensures
        r is Ok <==> !(content_length is Some && content_length->0 > max_bytes),
        r matches Err(e) ==> (e matches AppError::BadGateway(m) && m@ == too_large_message(max_bytes)),
{
    match content_length {
        Some(n) => if n > max_bytes {
            Err(too_large(max_bytes))
        } else {
            Ok(())
        },
        None => Ok(()),
    }
}

/// The byte count after one more chunk of the download: refused when it overflows (`IP
/// database is too large`) or passes the limit.
pub fn count_chunk(downloaded: u64, chunk_len: usize, max_bytes: u64) -> (r: Result<u64, AppError>)
    ensures
        downloaded + chunk_len > u64::MAX ==> (r matches Err(AppError::BadGateway(m)) && m@
            == "IP database is too large"@),
        downloaded + chunk_len <= u64::MAX && downloaded + chunk_len > max_bytes ==> (r matches Err(
            AppError::BadGateway(m),
        ) && m@ == too_large_message(max_bytes)),
        downloaded + chunk_len <= max_bytes ==> r == Ok::<u64, AppError>((downloaded + chunk_len) as u64),
{
    if chunk_len as u128 > (u64::MAX - downloaded) as u128 {
        return Err(AppError::BadGateway(String::from_str("IP database is too large")));
    }
    let total = downloaded + chunk_len as u64;
    if total > max_bytes {
        return Err(too_large(max_bytes));
    }
    Ok(total)
}

/// A finished download is kept only when it is not empty and its SHA-256 (lower-case hex)
/// is the expected one, if one is configured.
pub fn check_download(downloaded: u64, actual_sha256: &str, expected_sha256: Option<&str>) -> (r: Result<(), AppError>)
    ensures
        downloaded == 0 ==> (r matches Err(AppError::BadGateway(m)) && m@ == "downloaded IP database is empty"@),
        downloaded > 0 && expected_sha256 is Some && expected_sha256->0@ != actual_sha256@ ==> (r matches Err(
            AppError::BadGateway(m),
        ) && m@ == "downloaded IP database SHA-256 does not match"@),
        downloaded > 0 && !(expected_sha256 is Some && expected_sha256->0@ != actual_sha256@) ==> r is Ok,
{
    if downloaded == 0 {
        return Err(AppError::BadGateway(String::from_str("downloaded IP database is empty")));
    }
    match expected_sha256 {
        Some(expected) => if !crate::strmap::str_eq(expected, actual_sha256) {
            Err(AppError::BadGateway(String::from_str("downloaded IP database SHA-256 does not match")))
        } else {
            Ok(())
        },
        None => Ok(()),
    }
}


/// The SHA-256 of downloaded bytes as lower-case hexadecimal text, the form the expected
/// digest is compared in.
pub fn download_sha256(bytes: &[u8]) -> (r: String)
    ensures
        r@ == hex_of(crate::auth::sha256_of(bytes@)),
{
    let digest = crate::auth::sha256_digest(bytes);
    sha256_hex(digest.as_slice())
}

/// The check of a whole download (see [`check_download`]): its length and its SHA-256
/// against the expected digest, if one is configured.
pub fn check_downloaded_bytes(bytes: &[u8], expected_sha256: Option<&str>) -> (r: Result<(), AppError>)
    ensures
        bytes@.len() == 0 ==> (r matches Err(AppError::BadGateway(m)) && m@ == "downloaded IP database is empty"@),
        bytes@.len() > 0 && expected_sha256 is Some && expected_sha256->0@ != hex_of(crate::auth::sha256_of(bytes@))
            ==> (r matches Err(AppError::BadGateway(m)) && m@ == "downloaded IP database SHA-256 does not match"@),
        bytes@.len() > 0 && !(expected_sha256 is Some && expected_sha256->0@ != hex_of(
            crate::auth::sha256_of(bytes@),
        )) ==> r is Ok,
{
    let actual = download_sha256(bytes);
    check_download(bytes.len() as u64, actual.as_str(), expected_sha256)
}

} // verus!
