//! The updater's rules: names of release assets, checksum files, limits and waits.
//! Fetching and installing are left to the caller.

use vstd::prelude::*;
use vstd::string::StringExecFns;
use sha2::Digest;
use crate::config::{optional_string_text, optional_text, setting_text, setting_value};
use crate::optimizer::plan::{first_index, lemma_first_index_is};
use crate::text::{
    count_leading, decimal_digits, from_chars, is_white_space, is_whitespace_char, lowered,
    hex_text, parse_u64, push_decimal, strip_leading, to_ascii_lower, to_chars, to_hex,
    trim_range, trimmed, unsigned_of_text,
};

verus! {

/// The platforms for which releases are built.
#[derive(Clone, Copy, Debug, PartialEq, Eq, Structural)]
pub enum ReleaseTarget {
    LinuxX86_64,
    MacosX86_64,
    MacosArm64,
    WindowsX86_64,
}

impl ReleaseTarget {
    /// The platform part of an asset name.
    pub open spec fn spec_suffix(&self) -> Seq<char> {
        match self {
            ReleaseTarget::LinuxX86_64 => "linux-x86_64"@,
            ReleaseTarget::MacosX86_64 => "macos-x86_64"@,
            ReleaseTarget::MacosArm64 => "macos-arm64"@,
            ReleaseTarget::WindowsX86_64 => "windows-x86_64"@,
        }
    }

    /// The archive format of an asset.
    pub open spec fn spec_extension(&self) -> Seq<char> {
        match self {
            ReleaseTarget::WindowsX86_64 => "zip"@,
            _ => "tar.gz"@,
        }
    }

    /// The platform part of an asset name.
    pub fn suffix(&self) -> (r: &'static str)
        ensures
            r@ == self.spec_suffix(),
    {
        match self {
            ReleaseTarget::LinuxX86_64 => "linux-x86_64",
            ReleaseTarget::MacosX86_64 => "macos-x86_64",
            ReleaseTarget::MacosArm64 => "macos-arm64",
            ReleaseTarget::WindowsX86_64 => "windows-x86_64",
        }
    }

    /// The archive format of an asset.
    pub fn extension(&self) -> (r: &'static str)
        ensures
            r@ == self.spec_extension(),
    {
        match self {
            ReleaseTarget::WindowsX86_64 => "zip",
            _ => "tar.gz",
        }
    }
}

/// The texts of a sequence of strings.
pub open spec fn texts(names: Seq<String>) -> Seq<Seq<char>> {
    Seq::new(names.len(), |i: int| names[i]@)
}

/// The name of the asset of a version for a platform.
pub open spec fn asset_name(version: Seq<char>, target: ReleaseTarget) -> Seq<char> {
    "sort-it-now-"@ + version + "-"@ + target.spec_suffix() + "."@ + target.spec_extension()
}

/// The names under which the asset of a release may go: with the tag as it is, and
/// with the tag in its other spelling, with or without the leading `v`.
pub open spec fn asset_names(tag: Seq<char>, target: ReleaseTarget) -> Seq<Seq<char>> {
    let bare = strip_leading(tag, 'v');
    if bare != tag {
        seq![asset_name(tag, target), asset_name(bare, target)]
    } else if bare.len() > 0 {
        seq![asset_name(tag, target), asset_name(seq!['v'] + bare, target)]
    } else {
        seq![asset_name(tag, target)]
    }
}

/// Builds the name of the asset of a version for a platform.
fn build_asset_name(prefix: &str, version: &str, target: ReleaseTarget) -> (r: String)
    ensures
        r@ == "sort-it-now-"@ + prefix@ + version@ + "-"@ + target.spec_suffix() + "."@
            + target.spec_extension(),
{
    let mut name = String::from_str("sort-it-now-");
    name.append(prefix);
    name.append(version);
    name.append("-");
    name.append(target.suffix());
    name.append(".");
    name.append(target.extension());
    name
}

/// The names under which the asset of a release may go.
pub fn expected_asset_names(tag: &str, target: ReleaseTarget) -> (r: Vec<String>)
    ensures
        texts(r@) == asset_names(tag@, target),
{
    let mut candidates: Vec<String> = Vec::new();
    proof {
        reveal_strlit("");
        reveal_strlit("v");
    }
    assert(""@ =~= Seq::<char>::empty());
    assert("v"@ =~= seq!['v']);
    let base = build_asset_name("", tag, target);
    assert(base@ =~= asset_name(tag@, target));
    candidates.push(base);
    let chars = to_chars(tag);
    let at: usize = count_leading(&chars, 'v');
    let bare = from_chars(&chars, at, chars.len());
    if at > 0 {
        assert(bare@.len() != tag@.len());
        let other = build_asset_name("", bare.as_str(), target);
        assert(other@ =~= asset_name(bare@, target));
        candidates.push(other);
        assert(texts(candidates@) =~= asset_names(tag@, target));
    } else {
        assert(bare@ =~= tag@);
        if chars.len() > 0 {
            let other = build_asset_name("v", bare.as_str(), target);
            assert(other@ =~= asset_name(seq!['v'] + bare@, target));
            candidates.push(other);
            assert(texts(candidates@) =~= asset_names(tag@, target));
        } else {
            assert(texts(candidates@) =~= asset_names(tag@, target));
        }
    }
    candidates
}

/// The names under which the checksum of an asset may go.
pub open spec fn checksum_names(asset: Seq<char>) -> Seq<Seq<char>> {
    seq![asset + ".sha256"@, asset + ".sha256sum"@, asset + ".sha256.txt"@]
}

/// The names under which the checksum of an asset may go.
pub fn checksum_asset_names(asset_name: &str) -> (r: Vec<String>)
    ensures
        texts(r@) == checksum_names(asset_name@),
{
    let mut names: Vec<String> = Vec::new();
    names.push(String::from_str(asset_name).concat(".sha256"));
    names.push(String::from_str(asset_name).concat(".sha256sum"));
    names.push(String::from_str(asset_name).concat(".sha256.txt"));
    assert(texts(names@) =~= checksum_names(asset_name@));
    names
}

/// A file of a release: its name and the address from which it can be fetched.
#[derive(Debug)]
pub struct ReleaseAsset {
    pub name: String,
    pub browser_download_url: String,
}

/// Which assets go by one of the names.
pub open spec fn named_among(assets: Seq<ReleaseAsset>, names: Seq<Seq<char>>) -> spec_fn(
    int,
) -> bool {
    |i: int| names.contains(assets[i].name@)
}

/// Index of the first asset that goes by one of the names; the number of assets when
/// none does.
pub open spec fn first_named(assets: Seq<ReleaseAsset>, names: Seq<Seq<char>>) -> int {
    first_index(assets.len() as int, named_among(assets, names))
}

/// Whether one of the names is the given text.
fn is_among(names: &Vec<String>, text: &String) -> (r: bool)
    ensures
        r == texts(names@).contains(text@),
{
    let mut i: usize = 0;
    while i < names.len()
        invariant
            i <= names@.len(),
            forall|k: int| 0 <= k < i ==> texts(names@)[k] != text@,
        decreases names@.len() - i,
    {
        if names[i] == *text {
            assert(texts(names@)[i as int] == text@);
            return true;
        }
        i = i + 1;
    }
    false
}

/// The first asset that goes by one of the names.
pub fn find_release_asset<'a>(assets: &'a Vec<ReleaseAsset>, names: &Vec<String>) -> (r: Option<
    &'a ReleaseAsset,
>)
    ensures
        r is Some <==> first_named(assets@, texts(names@)) < assets@.len(),
        r matches Some(asset) ==> *asset == assets@[first_named(assets@, texts(names@))],
{
    let ghost p = named_among(assets@, texts(names@));
    let mut i: usize = 0;
    while i < assets.len()
        invariant
            i <= assets@.len(),
            p == named_among(assets@, texts(names@)),
            forall|k: int| 0 <= k < i ==> !#[trigger] p(k),
        decreases assets@.len() - i,
    {
        if is_among(names, &assets[i].name) {
            proof {
                assert(p(i as int));
                lemma_first_index_is(assets@.len() as int, p, i as int);
            }
            return Some(&assets[i]);
        }
        assert(!p(i as int));
        i = i + 1;
    }
    proof {
        lemma_first_index_is(assets@.len() as int, p, assets@.len() as int);
    }
    None
}

/// The first asset that goes by one of the names of the checksum of `asset_name`.
pub fn find_checksum_asset<'a>(assets: &'a Vec<ReleaseAsset>, asset_name: &str) -> (r: Option<
    &'a ReleaseAsset,
>)
    ensures
        r is Some <==> first_named(assets@, checksum_names(asset_name@)) < assets@.len(),
        r matches Some(asset) ==> *asset == assets@[first_named(
            assets@,
            checksum_names(asset_name@),
        )],
{
    let candidates = checksum_asset_names(asset_name);
    find_release_asset(assets, &candidates)
}

/// A hexadecimal digit.
pub open spec fn is_hex_digit(c: char) -> bool {
    ('0' <= c && c <= '9') || ('a' <= c && c <= 'f') || ('A' <= c && c <= 'F')
}

/// Every character is a hexadecimal digit.
pub open spec fn all_hex(s: Seq<char>) -> bool {
    forall|i: int| 0 <= i < s.len() ==> is_hex_digit(#[trigger] s[i])
}

/// Length of the first line: the index of the first line feed, or the length of the
/// text when there is none.
pub open spec fn line_length(s: Seq<char>) -> int
    decreases s.len(),
{
    if s.len() == 0 || s[0] == '\n' {
        0
    } else {
        1 + line_length(s.drop_first())
    }
}

/// Length of the first word: the index of the first white space, or the length of the
/// text when there is none.
pub open spec fn word_length(s: Seq<char>) -> int
    decreases s.len(),
{
    if s.len() == 0 || is_white_space(s[0]) {
        0
    } else {
        1 + word_length(s.drop_first())
    }
}

/// The checksum that a line gives: none for a blank line and for a comment (a line
/// whose first character, white space aside, is `#`); else the first word of the line
/// in lower case, if it is 64 hexadecimal digits.
pub open spec fn line_checksum(line: Seq<char>) -> Option<Seq<char>> {
    let content = trimmed(line);
    let word = content.take(word_length(content));
    if content.len() == 0 || content[0] == '#' {
        None
    } else if word.len() == 64 && all_hex(word) {
        Some(lowered(word))
    } else {
        None
    }
}

/// The checksum that a checksum file gives: that of its first line that gives one.
pub open spec fn file_checksum(contents: Seq<char>) -> Option<Seq<char>>
    decreases contents.len(),
{
    let end = line_length(contents);
    if line_checksum(contents.take(end)) is Some {
        line_checksum(contents.take(end))
    } else if 0 <= end < contents.len() {
        file_checksum(contents.skip(end + 1))
    } else {
        None
    }
}

/// The length of a line or word, seen from a range of a longer text.
proof fn lemma_line_length(v: Seq<char>, from: int, end: int)
    requires
        0 <= from <= end <= v.len(),
        forall|k: int| from <= k < end ==> v[k] != '\n',
        end < v.len() ==> v[end] == '\n',
    ensures
        line_length(v.skip(from)) == end - from,
        0 <= line_length(v.skip(from)) <= v.skip(from).len(),
    decreases end - from,
{
    let s = v.skip(from);
    if from < end {
        assert(s[0] == v[from]);
        assert(s.drop_first() =~= v.skip(from + 1));
        lemma_line_length(v, from + 1, end);
    } else if end < v.len() {
        assert(s[0] == v[end]);
    }
}

proof fn lemma_word_length(v: Seq<char>, from: int, end: int, to: int)
    requires
        0 <= from <= end <= to <= v.len(),
        forall|k: int| from <= k < end ==> !is_white_space(v[k]),
        end < to ==> is_white_space(v[end]),
    ensures
        word_length(v.subrange(from, to)) == end - from,
    decreases end - from,
{
    let s = v.subrange(from, to);
    if from < end {
        assert(s[0] == v[from]);
        assert(s.drop_first() =~= v.subrange(from + 1, to));
        lemma_word_length(v, from + 1, end, to);
    } else if end < to {
        assert(s[0] == v[end]);
    }
}

/// Whether a character is a hexadecimal digit.
fn is_hex_char(c: char) -> (r: bool)
    ensures
        r == is_hex_digit(c),
{
    ('0' <= c && c <= '9') || ('a' <= c && c <= 'f') || ('A' <= c && c <= 'F')
}

/// The checksum that the line from `from` up to `to` gives.
fn checksum_in_line(v: &Vec<char>, from: usize, to: usize) -> (r: Option<String>)
    requires
        from <= to <= v@.len(),
    ensures
        optional_string_text(r) == line_checksum(v@.subrange(from as int, to as int)),
{
    let (a, b) = trim_range(v, from, to);
    let ghost content = v@.subrange(a as int, b as int);
    if a == b {
        return None;
    }
    assert(content[0] == v@[a as int]);
    if v[a] == '#' {
        return None;
    }
    let mut end: usize = a;
    while end < b && !is_whitespace_char(v[end])
        invariant
            a <= end <= b <= v@.len(),
            forall|k: int| a <= k < end ==> !is_white_space(v@[k]),
        decreases b - end,
    {
        end = end + 1;
    }
    proof {
        lemma_word_length(v@, a as int, end as int, b as int);
        assert(content.take(end - a) =~= v@.subrange(a as int, end as int));
    }
    let ghost word = v@.subrange(a as int, end as int);
    if end - a != 64 {
        return None;
    }
    let ghost expected = line_checksum(v@.subrange(from as int, to as int));
    assert(word.len() == 64);
    assert(expected == (if all_hex(word) {
        Some(lowered(word))
    } else {
        None
    }));
    let mut hash = String::new();
    let mut i: usize = a;
    while i < end
        invariant
            a <= i <= end <= v@.len(),
            from <= to <= v@.len(),
            expected == line_checksum(v@.subrange(from as int, to as int)),
            expected == (if all_hex(word) {
                Some(lowered(word))
            } else {
                None
            }),
            word == v@.subrange(a as int, end as int),
            forall|k: int| 0 <= k < i - a ==> is_hex_digit(word[k]),
            hash@ == lowered(word).take(i - a),
        decreases end - i,
    {
        if !is_hex_char(v[i]) {
            assert(!is_hex_digit(word[i - a]));
            return None;
        }
        hash.push(to_ascii_lower(v[i]));
        assert(hash@ =~= lowered(word).take(i - a + 1));
        i = i + 1;
    }
    assert(lowered(word).take(end - a) =~= lowered(word));
    Some(hash)
}

/// Reads the checksum from a checksum file: the first word of the first line that is
/// neither blank nor a comment and whose first word is 64 hexadecimal digits, in lower
/// case.
pub fn parse_checksum_file(contents: &str) -> (r: Option<String>)
    ensures
        optional_string_text(r) == file_checksum(contents@),
{
    let v = to_chars(contents);
    let n: usize = v.len();
    let mut from: usize = 0;
    assert(v@.skip(0) =~= v@);
    loop
        invariant
            from <= n,
            n == v@.len(),
            v@ == contents@,
            file_checksum(contents@) == file_checksum(v@.skip(from as int)),
        decreases n - from,
    {
        let mut end: usize = from;
        while end < n && v[end] != '\n'
            invariant
                from <= end <= n,
                n == v@.len(),
                forall|k: int| from <= k < end ==> v@[k] != '\n',
            decreases n - end,
        {
            end = end + 1;
        }
        proof {
            lemma_line_length(v@, from as int, end as int);
            assert(v@.skip(from as int).take(end - from) =~= v@.subrange(from as int, end as int));
        }
        match checksum_in_line(&v, from, end) {
            Some(hash) => {
                return Some(hash);
            },
            None => {},
        }
        if end >= n {
            return None;
        }
        proof {
            assert(v@.skip(from as int).skip(end - from + 1) =~= v@.skip(end as int + 1));
        }
        from = end + 1;
    }
}

/// The text of a wait of so many seconds: hours, minutes and seconds, each with its
/// unit, separated by blanks; parts that are zero are left out, but zero seconds alone
/// are written.
pub open spec fn wait_text(total_secs: nat) -> Seq<char> {
    let hours = total_secs / 3600;
    let minutes = (total_secs % 3600) / 60;
    let seconds = total_secs % 60;
    let h = if hours > 0 { decimal_digits(hours) + seq!['h'] } else { Seq::<char>::empty() };
    let m = if minutes > 0 {
        (if hours > 0 { seq![' '] } else { Seq::<char>::empty() }) + decimal_digits(minutes)
            + seq!['m']
    } else {
        Seq::<char>::empty()
    };
    let s = if seconds > 0 || (hours == 0 && minutes == 0) {
        (if hours > 0 || minutes > 0 { seq![' '] } else { Seq::<char>::empty() })
            + decimal_digits(seconds) + seq!['s']
    } else {
        Seq::<char>::empty()
    };
    h + m + s
}

/// Writes a wait of so many seconds as text, such as `1h 2m 3s`.
pub fn format_wait(total_secs: u64) -> (r: String)
    ensures
        r@ == wait_text(total_secs as nat),
{
    let hours: u64 = total_secs / 3600;
    let minutes: u64 = (total_secs % 3600) / 60;
    let seconds: u64 = total_secs % 60;
    let mut out = String::new();
    if hours > 0 {
        push_decimal(&mut out, hours);
        out.push('h');
    }
    if minutes > 0 {
        if hours > 0 {
            out.push(' ');
        }
        push_decimal(&mut out, minutes);
        out.push('m');
    }
    if seconds > 0 || (hours == 0 && minutes == 0) {
        if hours > 0 || minutes > 0 {
            out.push(' ');
        }
        push_decimal(&mut out, seconds);
        out.push('s');
    }
    assert(out@ =~= wait_text(total_secs as nat));
    out
}

/// Bytes in a mebibyte.
pub const MEBIBYTE: u64 = 1_048_576;

/// The download limit in mebibytes when none is configured.
pub const DEFAULT_LIMIT_MB: u64 = 200;

/// The timeout in seconds when none is configured.
pub const DEFAULT_TIMEOUT_SECS: u64 = 30;

/// The largest download in bytes that a setting allows: the default of 200 mebibytes
/// when the setting is missing, blank or not a number; no limit when it is zero; else so
/// many mebibytes, at most what 64 bits hold.
pub open spec fn download_limit(setting: Option<Seq<char>>) -> Option<u64> {
    match setting {
        None => Some((DEFAULT_LIMIT_MB * MEBIBYTE) as u64),
        Some(text) => match unsigned_of_text(trimmed(text)) {
            None => Some((DEFAULT_LIMIT_MB * MEBIBYTE) as u64),
            Some(mb) => if mb == 0 {
                None
            } else if mb * MEBIBYTE > u64::MAX {
                Some(u64::MAX)
            } else {
                Some((mb * MEBIBYTE) as u64)
            },
        },
    }
}

/// Reads an unsigned number from a setting, white space aside.
fn parse_setting(text: &str) -> (r: Option<u64>)
    ensures
        r == unsigned_of_text(trimmed(text@)),
{
    let chars = to_chars(text);
    let (a, b) = trim_range(&chars, 0, chars.len());
    assert(chars@.subrange(0, chars@.len() as int) =~= chars@);
    crate::text::parse_unsigned(&chars, a, b)
}

/// The largest download in bytes that the setting allows; none for no limit.
pub fn max_download_size_bytes(setting: Option<&str>) -> (r: Option<u64>)
    ensures
        r == download_limit(optional_text(setting)),
{
    match setting {
        None => Some(DEFAULT_LIMIT_MB * MEBIBYTE),
        Some(text) => match parse_setting(text) {
            None => Some(DEFAULT_LIMIT_MB * MEBIBYTE),
            Some(mb) => {
                if mb == 0 {
                    None
                } else if mb > u64::MAX / MEBIBYTE {
                    assert(mb * MEBIBYTE > u64::MAX) by (nonlinear_arith)
                        requires
                            mb > u64::MAX / MEBIBYTE,
                            MEBIBYTE == 1_048_576,
                    ;
                    Some(u64::MAX)
                } else {
                    assert(mb * MEBIBYTE <= u64::MAX) by (nonlinear_arith)
                        requires
                            mb <= u64::MAX / MEBIBYTE,
                            MEBIBYTE == 1_048_576,
                    ;
                    Some(mb * MEBIBYTE)
                }
            },
        },
    }
}

/// The timeout in seconds that a setting gives: the configured number when it is a
/// number other than zero, else the default of thirty seconds.
pub open spec fn timeout_secs(setting: Option<Seq<char>>) -> u64 {
    match setting {
        None => DEFAULT_TIMEOUT_SECS,
        Some(text) => match unsigned_of_text(trimmed(text)) {
            None => DEFAULT_TIMEOUT_SECS,
            Some(secs) => if secs == 0 {
                DEFAULT_TIMEOUT_SECS
            } else {
                secs
            },
        },
    }
}

/// The timeout of a request in seconds.
pub fn http_timeout(setting: Option<&str>) -> (r: u64)
    ensures
        r == timeout_secs(optional_text(setting)),
{
    match setting {
        None => DEFAULT_TIMEOUT_SECS,
        Some(text) => match parse_setting(text) {
            None => DEFAULT_TIMEOUT_SECS,
            Some(secs) => if secs == 0 {
                DEFAULT_TIMEOUT_SECS
            } else {
                secs
            },
        },
    }
}

/// The access token: the first of the two settings that is neither missing nor blank,
/// trimmed.
pub fn github_token(primary: Option<&str>, fallback: Option<&str>) -> (r: Option<String>)
    ensures
        optional_string_text(r) == (match setting_text(optional_text(primary)) {
            Some(t) => Some(t),
            None => setting_text(optional_text(fallback)),
        }),
{
    match setting_value(primary) {
        Some(t) => Some(t),
        None => setting_value(fallback),
    }
}

/// Whether the count of remaining requests, as the server states it, is zero.
pub fn is_rate_limit_response(remaining: Option<&str>) -> (r: bool)
    ensures
        r == (remaining matches Some(text) && unsigned_of_text(text@) == Some(0u64)),
{
    match remaining {
        None => false,
        Some(text) => match parse_u64(text) {
            Some(n) => n == 0,
            None => false,
        },
    }
}

/// Seconds to wait until the rate limit is lifted: the stated time of the reset less
/// the present time, both in seconds since the epoch; none when no time is stated,
/// when it is not a number, or when it is not in the future.
pub fn rate_limit_reset_duration(reset: Option<&str>, now_secs: u64) -> (r: Option<u64>)
    ensures
        r == (match reset {
            Some(text) => match unsigned_of_text(text@) {
                Some(at) => if at > now_secs {
                    Some((at - now_secs) as u64)
                } else {
                    None
                },
                None => None,
            },
            None => None,
        }),
{
    match reset {
        None => None,
        Some(text) => match parse_u64(text) {
            Some(at) => if at > now_secs {
                Some(at - now_secs)
            } else {
                None
            },
            None => None,
        },
    }
}

/// The name of the directory into which a release unpacks.
pub fn bundle_directory(tag_name: &str, target: ReleaseTarget) -> (r: String)
    ensures
        r@ == "sort-it-now-"@ + tag_name@ + "-"@ + target.spec_suffix(),
{
    let mut name = String::from_str("sort-it-now-");
    name.append(tag_name);
    name.append("-");
    name.append(target.suffix());
    name
}

/// The name under which the updater announces itself.
pub fn user_agent(version: &str, os: &str, arch: &str) -> (r: String)
    ensures
        r@ == "sort-it-now/"@ + version@ + " ("@ + os@ + "; "@ + arch@ + ")"@,
{
    let mut name = String::from_str("sort-it-now/");
    name.append(version);
    name.append(" (");
    name.append(os);
    name.append("; ");
    name.append(arch);
    name.append(")");
    name
}

/// What the answer to the release query calls for.
#[derive(Clone, Copy, Debug, PartialEq, Eq, Structural)]
pub enum ResponseAction {
    /// The rate limit is reached: skip the check.
    RateLimited,
    /// Access is forbidden for another reason: fail.
    Forbidden,
    /// The token was rejected: skip the check.
    Unauthorized,
    /// There is no release: skip the check.
    NotFound,
    /// Go on and read the answer.
    Proceed,
}

/// What a status code calls for.
pub open spec fn action_for(status: u16, rate_limited: bool) -> ResponseAction {
    if status == 403 {
        if rate_limited {
            ResponseAction::RateLimited
        } else {
            ResponseAction::Forbidden
        }
    } else if status == 401 {
        ResponseAction::Unauthorized
    } else if status == 404 {
        ResponseAction::NotFound
    } else {
        ResponseAction::Proceed
    }
}

/// What the status code of the answer calls for; `rate_limited` says whether the
/// answer states that no requests remain.
pub fn classify_response(status: u16, rate_limited: bool) -> (r: ResponseAction)
    ensures
        r == action_for(status, rate_limited),
{
    if status == 403 {
        if rate_limited {
            ResponseAction::RateLimited
        } else {
            ResponseAction::Forbidden
        }
    } else if status == 401 {
        ResponseAction::Unauthorized
    } else if status == 404 {
        ResponseAction::NotFound
    } else {
        ResponseAction::Proceed
    }
}

/// Whether a download of `size` bytes is beyond the limit.
pub fn exceeds_limit(limit: Option<u64>, size: u64) -> (r: bool)
    ensures
        r == (limit matches Some(bytes) && size > bytes),
{
    match limit {
        Some(bytes) => size > bytes,
        None => false,
    }
}

/// A parsed semantic version of the crate `semver`.
#[verifier::external_type_specification]
#[verifier::external_body]
pub struct ExVersion(semver::Version);

/// Whether `semver::Version::parse` accepts the text.
pub uninterp spec fn is_semantic_version(text: Seq<char>) -> bool;

/// The SHA-256 digest of the bytes, as `sha2::Sha256::digest` computes it.
pub uninterp spec fn sha256(data: Seq<u8>) -> Seq<u8>;

/// Calls `semver::Version::parse`. The contract claims only that the call succeeds
/// exactly on the texts that it accepts; nothing is claimed of the version itself.
#[verifier::external_body]
fn parse_version(text: &str) -> (r: Option<semver::Version>)
    ensures
        r is Some <==> is_semantic_version(text@),
{
    semver::Version::parse(text).ok()
}

/// Compares two versions with the order that `semver::Version` implements: whether
/// the first has the higher precedence. Nothing is claimed of the result.
#[verifier::external_body]
fn version_greater(a: &semver::Version, b: &semver::Version) -> (r: bool) {
    a > b
}

/// Calls `sha2::Sha256::digest`. The contract claims that the result is the digest of
/// the bytes, a function of the bytes alone, and that it is 32 bytes long.
#[verifier::external_body]
fn sha256_digest(data: &[u8]) -> (r: Vec<u8>)
    ensures
        r@ == sha256(data@),
        r@.len() == 32,
{
    sha2::Sha256::digest(data).to_vec()
}

/// How the running version stands to the latest release.
#[derive(Clone, Copy, Debug, PartialEq, Eq, Structural)]
pub enum VersionStatus {
    /// The latest release is newer.
    UpdateAvailable,
    /// The running version is the latest, or newer.
    UpToDate,
    /// One of the two is no semantic version.
    Unknown,
}

/// How the running version stands to the latest release, given whether each of the two
/// is a semantic version and whether the latest has the higher precedence.
pub fn version_status(current_valid: bool, latest_valid: bool, newer: bool) -> (r: VersionStatus)
    ensures
        r == (if !(current_valid && latest_valid) {
            VersionStatus::Unknown
        } else if newer {
            VersionStatus::UpdateAvailable
        } else {
            VersionStatus::UpToDate
        }),
{
    if !(current_valid && latest_valid) {
        VersionStatus::Unknown
    } else if newer {
        VersionStatus::UpdateAvailable
    } else {
        VersionStatus::UpToDate
    }
}

/// Compares the running version with the tag of the latest release, leading `v`s of
/// the tag aside. The status is unknown exactly when one of the two is no semantic
/// version; else it follows the precedence of semantic versions.
pub fn check_version(current: &str, tag: &str) -> (r: VersionStatus)
    ensures
        r == VersionStatus::Unknown <==> !(is_semantic_version(current@) && is_semantic_version(
            strip_leading(tag@, 'v'),
        )),
{
    let chars = to_chars(tag);
    let at: usize = count_leading(&chars, 'v');
    let latest = from_chars(&chars, at, chars.len());
    let current_version = parse_version(current);
    let latest_version = parse_version(latest.as_str());
    match (current_version, latest_version) {
        (Some(c), Some(l)) => {
            let newer: bool = version_greater(&l, &c);
            version_status(true, true, newer)
        },
        (None, _) => version_status(false, true, false),
        (_, None) => version_status(true, false, false),
    }
}

/// The SHA-256 checksum of the bytes: the digest in lower-case hexadecimal.
pub fn sha256_hex(data: &[u8]) -> (r: String)
    ensures
        r@ == hex_text(sha256(data@)),
        r@.len() == 64,
{
    let digest = sha256_digest(data);
    proof {
        lemma_hex_length(digest@);
    }
    to_hex(&digest)
}

/// The hexadecimal text of bytes has two characters for each byte.
pub proof fn lemma_hex_length(bytes: Seq<u8>)
    ensures
        hex_text(bytes).len() == 2 * bytes.len(),
    decreases bytes.len(),
{
    if bytes.len() > 0 {
        lemma_hex_length(bytes.drop_last());
    }
}

/// Whether the SHA-256 checksum of the bytes is the expected one.
pub fn checksum_matches(data: &[u8], expected: &str) -> (r: bool)
    ensures
        r == (hex_text(sha256(data@)) == expected@),
{
    let computed = sha256_hex(data);
    let wanted = String::from_str(expected);
    computed == wanted
}

/// Length of the first entry of a search path: the index of the first semicolon, or
/// the length of the text when there is none.
pub open spec fn entry_length(s: Seq<char>) -> int
    decreases s.len(),
{
    if s.len() == 0 || s[0] == ';' {
        0
    } else {
        1 + entry_length(s.drop_first())
    }
}

/// Whether a search path, a list of directories separated by semicolons, lists the
/// directory: one of its entries is the directory, surrounding white space and the case
/// of ASCII letters aside.
pub open spec fn search_path_lists(current: Seq<char>, dir: Seq<char>) -> bool
    decreases current.len(),
{
    let end = entry_length(current);
    lowered(trimmed(current.take(end))) == lowered(dir) || (0 <= end < current.len()
        && search_path_lists(current.skip(end + 1), dir))
}

/// The search path with the directory added at its end; none when the search path lists
/// the directory already.
pub open spec fn extended_path(current: Seq<char>, dir: Seq<char>) -> Option<Seq<char>> {
    if search_path_lists(current, dir) {
        None
    } else if trimmed(current).len() == 0 {
        Some(dir)
    } else {
        Some(current + seq![';'] + dir)
    }
}

proof fn lemma_entry_length(v: Seq<char>, from: int, end: int)
    requires
        0 <= from <= end <= v.len(),
        forall|k: int| from <= k < end ==> v[k] != ';',
        end < v.len() ==> v[end] == ';',
    ensures
        entry_length(v.skip(from)) == end - from,
    decreases end - from,
{
    let s = v.skip(from);
    if from < end {
        assert(s[0] == v[from]);
        assert(s.drop_first() =~= v.skip(from + 1));
        lemma_entry_length(v, from + 1, end);
    } else if end < v.len() {
        assert(s[0] == v[end]);
    }
}

/// Whether the characters from `from` up to `to` are those of `word`, the case of ASCII
/// letters aside.
fn same_ignoring_case(v: &Vec<char>, from: usize, to: usize, word: &Vec<char>) -> (r: bool)
    requires
        from <= to <= v@.len(),
    ensures
        r == (lowered(v@.subrange(from as int, to as int)) == lowered(word@)),
{
    let ghost text = lowered(v@.subrange(from as int, to as int));
    if word.len() != to - from {
        assert(text.len() != lowered(word@).len());
        return false;
    }
    let mut i: usize = 0;
    while i < word.len()
        invariant
            i <= word@.len(),
            from <= to <= v@.len(),
            word@.len() == to - from,
            text == lowered(v@.subrange(from as int, to as int)),
            forall|k: int| 0 <= k < i ==> text[k] == lowered(word@)[k],
        decreases word@.len() - i,
    {
        if to_ascii_lower(v[from + i]) != to_ascii_lower(word[i]) {
            assert(text[i as int] != lowered(word@)[i as int]);
            return false;
        }
        i = i + 1;
    }
    assert(text =~= lowered(word@));
    true
}

/// Whether the search path lists the directory.
pub fn search_path_contains(current: &str, dir: &str) -> (r: bool)
    ensures
        r == search_path_lists(current@, dir@),
{
    let v = to_chars(current);
    let word = to_chars(dir);
    let n: usize = v.len();
    let mut from: usize = 0;
    assert(v@.skip(0) =~= v@);
    loop
        invariant
            from <= n,
            n == v@.len(),
            v@ == current@,
            word@ == dir@,
            search_path_lists(current@, dir@) == search_path_lists(v@.skip(from as int), dir@),
        decreases n - from,
    {
        let mut end: usize = from;
        while end < n && v[end] != ';'
            invariant
                from <= end <= n,
                n == v@.len(),
                forall|k: int| from <= k < end ==> v@[k] != ';',
            decreases n - end,
        {
            end = end + 1;
        }
        proof {
            lemma_entry_length(v@, from as int, end as int);
            assert(v@.skip(from as int).take(end - from) =~= v@.subrange(from as int, end as int));
        }
        let (a, b) = trim_range(&v, from, end);
        if same_ignoring_case(&v, a, b, &word) {
            return true;
        }
        if end >= n {
            return false;
        }
        proof {
            assert(v@.skip(from as int).skip(end - from + 1) =~= v@.skip(end as int + 1));
        }
        from = end + 1;
    }
}

/// The search path with the directory added at its end; none when the search path lists
/// the directory already.
pub fn extended_search_path(current: &str, dir: &str) -> (r: Option<String>)
    ensures
        optional_string_text(r) == extended_path(current@, dir@),
{
    if search_path_contains(current, dir) {
        return None;
    }
    let v = to_chars(current);
    let (a, b) = trim_range(&v, 0, v.len());
    assert(v@.subrange(0, v@.len() as int) =~= v@);
    if a == b {
        Some(String::from_str(dir))
    } else {
        let mut path = String::from_str(current);
        path.push(';');
        path.append(dir);
        assert(path@ =~= current@ + seq![';'] + dir@);
        Some(path)
    }
}

} // verus!
