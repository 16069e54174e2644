//! Path and formatting utilities: file-name and extension splitting, size and
//! duration rendering, ignore-pattern matching, and path sanitising.

use vstd::prelude::*;
use vstd::string::*;

use crate::strutil::chars_contain;
use crate::strutil::contains_str;
use crate::strutil::decimal_chars;
use crate::strutil::digit_char;
use crate::strutil::find_last_char;
use crate::strutil::lower_chars;
use crate::strutil::lower_str;
use crate::strutil::push_char;
use crate::strutil::push_decimal;
use crate::strutil::replace_chars;
use crate::strutil::replace_str;
use crate::strutil::trim_start_char;
use crate::strutil::trim_start_str;
use crate::strutil::u64_to_string;

verus! {

/// The characters of `s` after the last occurrence of `c`;
/// all of `s` when `c` does not occur.
pub open spec fn after_last(s: Seq<char>, c: char) -> Seq<char>
    decreases s.len(),
{
    if s.len() == 0 {
        s
    } else if s.last() == c {
        Seq::empty()
    } else {
        after_last(s.drop_last(), c).push(s.last())
    }
}

/// The characters of `s` strictly before the last occurrence of `c`.
pub open spec fn before_last(s: Seq<char>, c: char) -> Seq<char>
    decreases s.len(),
{
    if s.len() == 0 {
        s
    } else if s.last() == c {
        s.drop_last()
    } else {
        before_last(s.drop_last(), c)
    }
}

/// `c` occurs somewhere in `s`.
pub open spec fn contains_char(s: Seq<char>, c: char) -> bool {
    exists|i: int| 0 <= i < s.len() && s[i] == c
}

/// With the last occurrence of `c` at position `i`, `after_last` is the suffix
/// behind it and `before_last` the prefix in front of it.
pub proof fn lemma_split_at_last(s: Seq<char>, c: char, i: int)
    requires
        0 <= i < s.len(),
        s[i] == c,
        forall|j: int| i < j < s.len() ==> s[j] != c,
    ensures
        after_last(s, c) =~= s.skip(i + 1),
        before_last(s, c) =~= s.subrange(0, i),
    decreases s.len(),
{
    if i == s.len() - 1 {
        assert(s.last() == c);
        assert(s.skip(i + 1) =~= Seq::<char>::empty());
        assert(s.subrange(0, i) =~= s.drop_last());
    } else {
        assert(s.last() != c);
        lemma_split_at_last(s.drop_last(), c, i);
        assert(s.drop_last().skip(i + 1).push(s.last()) =~= s.skip(i + 1));
        assert(s.drop_last().subrange(0, i) =~= s.subrange(0, i));
    }
}

/// When `c` does not occur in `s`, `after_last` keeps all of `s`.
pub proof fn lemma_after_last_absent(s: Seq<char>, c: char)
    requires
        forall|j: int| 0 <= j < s.len() ==> s[j] != c,
    ensures
        after_last(s, c) =~= s,
    decreases s.len(),
{
    if s.len() > 0 {
        lemma_after_last_absent(s.drop_last(), c);
    }
}

/// The file-name component of a path: everything after the last slash.
pub open spec fn basename_chars(p: Seq<char>) -> Seq<char> {
    after_last(p, '/')
}

/// The extension of a path, not yet lowered: the part of the file name after
/// its last dot, where a dot in first position does not start an extension.
pub open spec fn extension_chars(p: Seq<char>) -> Option<Seq<char>> {
    let name = basename_chars(p);
    if name.len() == 0 {
        Option::None
    } else {
        let tail = name.subrange(1, name.len() as int);
        if contains_char(tail, '.') {
            Option::Some(after_last(tail, '.'))
        } else {
            Option::None
        }
    }
}

/// The file name of a path without its extension.
pub open spec fn file_stem_chars(p: Seq<char>) -> Option<Seq<char>> {
    let name = basename_chars(p);
    if name.len() == 0 {
        Option::None
    } else {
        let tail = name.subrange(1, name.len() as int);
        if contains_char(tail, '.') {
            Option::Some(seq![name[0]] + before_last(tail, '.'))
        } else {
            Option::Some(name)
        }
    }
}

/// The file-name component of `path` as an owned string.
pub fn basename_of(path: &str) -> (r: String)
    ensures
        r@ == basename_chars(path@),
{
    let n: usize = path.unicode_len();
    let start: usize = match find_last_char(path, '/') {
        Option::Some(i) => {
            proof {
                lemma_split_at_last(path@, '/', i as int);
            }
            i + 1
        },
        Option::None => {
            proof {
                lemma_after_last_absent(path@, '/');
            }
            0
        },
    };
    proof {
        assert(path@.skip(start as int) =~= path@.subrange(start as int, n as int));
    }
    let name: &str = path.substring_char(start, n);
    name.to_owned()
}

/// The lower-cased extension of `path`, when its file name has one.
pub fn get_file_extension(path: &str) -> (r: Option<String>)
    ensures
        match r {
            Option::Some(e) => extension_chars(path@) matches Option::Some(x) && e@ == lower_chars(
                x,
            ),
            Option::None => extension_chars(path@) is None,
        },
{
    let name: String = basename_of(path);
    let nstr: &str = name.as_str();
    let nl: usize = nstr.unicode_len();
    if nl == 0 {
        return Option::None;
    }
    let ghost tail = name@.subrange(1, nl as int);
    match find_last_char(nstr, '.') {
        Option::Some(k) => {
            if k >= 1 {
                proof {
                    assert(tail[k - 1] == name@[k as int]);
                    assert(forall|j: int| k - 1 < j < tail.len() ==> tail[j] == name@[j + 1]
                        && name@[j + 1] != '.');
                    lemma_split_at_last(tail, '.', k - 1);
                    assert(contains_char(tail, '.'));
                    assert(tail.skip(k as int) =~= name@.subrange(k + 1, nl as int));
                }
                let ext: &str = nstr.substring_char(k + 1, nl);
                Option::Some(lower_str(ext))
            } else {
                proof {
                    assert(forall|j: int| 0 <= j < tail.len() ==> tail[j] == name@[j + 1]
                        && name@[j + 1] != '.');
                    assert(!contains_char(tail, '.'));
                }
                Option::None
            }
        },
        Option::None => {
            proof {
                assert(forall|j: int| 0 <= j < tail.len() ==> tail[j] == name@[j + 1] && name@[j
                    + 1] != '.');
                assert(!contains_char(tail, '.'));
            }
            Option::None
        },
    }
}

/// The file name of `path` without its extension, in original case.
pub fn get_file_name_without_extension(path: &str) -> (r: Option<String>)
    ensures
        match r {
            Option::Some(s) => file_stem_chars(path@) matches Option::Some(x) && s@ == x,
            Option::None => file_stem_chars(path@) is None,
        },
{
    let name: String = basename_of(path);
    let nstr: &str = name.as_str();
    let nl: usize = nstr.unicode_len();
    if nl == 0 {
        return Option::None;
    }
    let ghost tail = name@.subrange(1, nl as int);
    match find_last_char(nstr, '.') {
        Option::Some(k) => {
            if k >= 1 {
                proof {
                    assert(tail[k - 1] == name@[k as int]);
                    assert(forall|j: int| k - 1 < j < tail.len() ==> tail[j] == name@[j + 1]
                        && name@[j + 1] != '.');
                    lemma_split_at_last(tail, '.', k - 1);
                    assert(contains_char(tail, '.'));
                    assert(tail.subrange(0, k - 1) =~= name@.subrange(1, k as int));
                    assert(seq![name@[0]] + name@.subrange(1, k as int) =~= name@.subrange(
                        0,
                        k as int,
                    ));
                }
                let stem: &str = nstr.substring_char(0, k);
                Option::Some(stem.to_owned())
            } else {
                proof {
                    assert(forall|j: int| 0 <= j < tail.len() ==> tail[j] == name@[j + 1]
                        && name@[j + 1] != '.');
                    assert(!contains_char(tail, '.'));
                }
                Option::Some(name)
            }
        },
        Option::None => {
            proof {
                assert(forall|j: int| 0 <= j < tail.len() ==> tail[j] == name@[j + 1] && name@[j
                    + 1] != '.');
                assert(!contains_char(tail, '.'));
            }
            Option::Some(name)
        },
    }
}

/// A path names a hidden file when its file-name component starts with a dot.
pub open spec fn is_hidden_chars(p: Seq<char>) -> bool {
    basename_chars(p).len() > 0 && basename_chars(p)[0] == '.'
}

/// Whether the file named by `path` is hidden.
pub fn is_hidden_file(path: &str) -> (r: bool)
    ensures
        r == is_hidden_chars(path@),
{
    let name: String = basename_of(path);
    let nstr: &str = name.as_str();
    if nstr.unicode_len() == 0 {
        return false;
    }
    nstr.get_char(0) == '.'
}

/// A path matches the pattern list when any pattern occurs in it as a substring.
pub open spec fn matches_patterns_spec(p: Seq<char>, patterns: Seq<Seq<char>>) -> bool {
    exists|i: int| 0 <= i < patterns.len() && chars_contain(p, patterns[i])
}

/// Whether any of `patterns` occurs in `path`.
pub fn matches_ignore_patterns(path: &str, patterns: &[String]) -> (r: bool)
    ensures
        r == matches_patterns_spec(path@, patterns@.map_values(|s: String| s@)),
{
    let ghost pats = patterns@.map_values(|s: String| s@);
    let mut i: usize = 0;
    while i < patterns.len()
        invariant
            pats == patterns@.map_values(|s: String| s@),
            i <= patterns.len(),
            forall|j: int| 0 <= j < i ==> !chars_contain(path@, pats[j]),
        decreases patterns.len() - i,
    {
        if contains_str(path, patterns[i].as_str()) {
            proof {
                assert(chars_contain(path@, pats[i as int]));
            }
            return true;
        }
        i += 1;
    }
    proof {
        assert(forall|j: int| 0 <= j < pats.len() ==> !chars_contain(path@, pats[j]));
    }
    false
}

/// The sanitised form of a path: parent references removed, duplicate slashes
/// collapsed once, leading slashes stripped.
pub open spec fn sanitize_chars(p: Seq<char>) -> Seq<char> {
    trim_start_char(replace_chars(replace_chars(p, ".."@, Seq::empty()), "//"@, "/"@), '/')
}

/// Sanitises a path for safe use: removes `..`, collapses `//`, strips leading `/`.
pub fn sanitize_path(path: &str) -> (r: String)
    ensures
        r@ == sanitize_chars(path@),
{
    proof {
        reveal_strlit("..");
        reveal_strlit("//");
        reveal_strlit("/");
        reveal_strlit("");
    }
    let step1: String = replace_str(path, "..", "");
    proof {
        assert(""@ =~= Seq::<char>::empty());
    }
    let step2: String = replace_str(step1.as_str(), "//", "/");
    trim_start_str(step2.as_str(), '/')
}

/// Relies on `std::path::Path::exists`: whether the path names anything that
/// exists. Nothing can be promised of the result: it depends on the state of
/// the file system at the moment of the call.
#[verifier::external_body]
pub fn is_valid_file_path(path: &str) -> bool {
    std::path::Path::new(path).exists()
}

/// Relies on `std::path::Path::is_dir`: whether the path names an existing
/// directory. Nothing can be promised of the result: it depends on the state
/// of the file system at the moment of the call.
#[verifier::external_body]
pub fn is_valid_directory_path(path: &str) -> bool {
    std::path::Path::new(path).is_dir()
}

/// Whether files with this extension can be assigned a language.
pub fn is_supported_extension(extension: &str) -> (r: bool)
    ensures
        r == (crate::languages::path_language("file."@ + extension@) is Some),
{
    let mut probe: String = String::from_str("file.");
    probe.append(extension);
    let detected: Option<crate::Language> = crate::languages::detect_language_by_extension(
        probe.as_str(),
    );
    detected.is_some()
}

/// The view of every extension in the supported list.
pub open spec fn supported_extensions_spec() -> Seq<Seq<char>> {
    seq![
        "py"@,
        "pyw"@,
        "pyi"@,
        "rs"@,
        "js"@,
        "mjs"@,
        "cjs"@,
        "ts"@,
        "mts"@,
        "cts"@,
        "java"@,
        "c"@,
        "h"@,
        "cpp"@,
        "cc"@,
        "cxx"@,
        "c++"@,
        "hpp"@,
        "hh"@,
        "hxx"@,
        "h++"@,
        "go"@,
        "cs"@,
        "php"@,
        "phtml"@,
        "php3"@,
        "php4"@,
        "php5"@,
        "phps"@,
        "rb"@,
        "rbw"@,
        "swift"@,
        "kt"@,
        "kts"@,
        "scala"@,
        "sc"@,
        "hs"@,
        "lhs"@,
        "lua"@,
        "pl"@,
        "pm"@,
        "t"@,
        "pod"@,
        "r"@,
        "R"@,
        "sh"@,
        "bash"@,
        "zsh"@,
        "fish"@,
        "ps1"@,
        "psm1"@,
        "psd1"@,
        "html"@,
        "htm"@,
        "xhtml"@,
        "css"@,
        "sql"@,
        "json"@,
        "yaml"@,
        "yml"@,
        "toml"@,
        "xml"@,
        "xsd"@,
        "xsl"@,
        "xslt"@,
    ]
}

/// Every file extension the library can assign a language to.
pub fn get_supported_extensions() -> (r: Vec<String>)
    ensures
        r.deep_view() =~= supported_extensions_spec(),
{
    let r: Vec<String> = vec![
        String::from_str("py"),
        String::from_str("pyw"),
        String::from_str("pyi"),
        String::from_str("rs"),
        String::from_str("js"),
        String::from_str("mjs"),
        String::from_str("cjs"),
        String::from_str("ts"),
        String::from_str("mts"),
        String::from_str("cts"),
        String::from_str("java"),
        String::from_str("c"),
        String::from_str("h"),
        String::from_str("cpp"),
        String::from_str("cc"),
        String::from_str("cxx"),
        String::from_str("c++"),
        String::from_str("hpp"),
        String::from_str("hh"),
        String::from_str("hxx"),
        String::from_str("h++"),
        String::from_str("go"),
        String::from_str("cs"),
        String::from_str("php"),
        String::from_str("phtml"),
        String::from_str("php3"),
        String::from_str("php4"),
        String::from_str("php5"),
        String::from_str("phps"),
        String::from_str("rb"),
        String::from_str("rbw"),
        String::from_str("swift"),
        String::from_str("kt"),
        String::from_str("kts"),
        String::from_str("scala"),
        String::from_str("sc"),
        String::from_str("hs"),
        String::from_str("lhs"),
        String::from_str("lua"),
        String::from_str("pl"),
        String::from_str("pm"),
        String::from_str("t"),
        String::from_str("pod"),
        String::from_str("r"),
        String::from_str("R"),
        String::from_str("sh"),
        String::from_str("bash"),
        String::from_str("zsh"),
        String::from_str("fish"),
        String::from_str("ps1"),
        String::from_str("psm1"),
        String::from_str("psd1"),
        String::from_str("html"),
        String::from_str("htm"),
        String::from_str("xhtml"),
        String::from_str("css"),
        String::from_str("sql"),
        String::from_str("json"),
        String::from_str("yaml"),
        String::from_str("yml"),
        String::from_str("toml"),
        String::from_str("xml"),
        String::from_str("xsd"),
        String::from_str("xsl"),
        String::from_str("xslt"),
    ];
    proof {
        assert(r.deep_view() =~= supported_extensions_spec());
    }
    r
}

/// The rounded hundredths rendering `w.ff`, for a value given in hundredths.
pub open spec fn hundredths_chars(h: nat) -> Seq<char> {
    decimal_chars(h / 100) + "."@ + seq![digit_char(((h / 10) % 10)), digit_char(h % 10)]
}

/// Appends `hundredths_chars(h)` to `out`.
fn push_hundredths(out: &mut String, h: u64)
    ensures
        final(out)@ == old(out)@ + hundredths_chars(h as nat),
{
    push_decimal(out, h / 100);
    out.append(".");
    let d1: u8 = ((h / 10) % 10) as u8;
    push_char(out, (48 + d1) as char);
    let d2: u8 = (h % 10) as u8;
    push_char(out, (48 + d2) as char);
    proof {
        assert((old(out)@ + decimal_chars((h / 100) as nat) + "."@).push(
            digit_char(((h / 10) % 10) as nat),
        ).push(digit_char((h % 10) as nat)) =~= old(out)@ + hundredths_chars(h as nat));
    }
}

/// The value of `bytes` scaled by `unit`, in rounded hundredths.
pub open spec fn scaled_hundredths(bytes: nat, unit: nat) -> nat
    recommends
        unit > 0,
{
    (bytes * 100 + unit / 2) / unit
}

/// The rendered size of `bytes`: whole bytes below one kilobyte, otherwise the
/// value scaled to the largest unit it reaches, with two decimals.
pub open spec fn format_file_size_spec(bytes: nat) -> Seq<char> {
    if bytes < 1024 {
        decimal_chars(bytes) + " B"@
    } else if bytes < 1024 * 1024 {
        hundredths_chars(scaled_hundredths(bytes, 1024)) + " KB"@
    } else if bytes < 1024 * 1024 * 1024 {
        hundredths_chars(scaled_hundredths(bytes, 1024 * 1024)) + " MB"@
    } else if bytes < 1024 * 1024 * 1024 * 1024 {
        hundredths_chars(scaled_hundredths(bytes, 1024 * 1024 * 1024)) + " GB"@
    } else {
        hundredths_chars(scaled_hundredths(bytes, 1024 * 1024 * 1024 * 1024)) + " TB"@
    }
}

/// Renders a byte count with the largest unit it reaches and two decimals.
pub fn format_file_size(bytes: usize) -> (r: String)
    ensures
        r@ == format_file_size_spec(bytes as nat),
{
    if bytes < 1024 {
        let mut out: String = u64_to_string(bytes as u64);
        out.append(" B");
        return out;
    }
    let b: u128 = bytes as u128;
    let mut out: String = String::new();
    if b < 1024 * 1024 {
        let h: u64 = ((b * 100 + 512) / 1024) as u64;
        push_hundredths(&mut out, h);
        out.append(" KB");
    } else if b < 1024 * 1024 * 1024 {
        let h: u64 = ((b * 100 + 524288) / (1024 * 1024)) as u64;
        push_hundredths(&mut out, h);
        out.append(" MB");
    } else if b < 1024 * 1024 * 1024 * 1024 {
        let h: u64 = ((b * 100 + 536870912) / (1024 * 1024 * 1024)) as u64;
        push_hundredths(&mut out, h);
        out.append(" GB");
    } else {
        let h: u64 = ((b * 100 + 549755813888) / (1024 * 1024 * 1024 * 1024)) as u64;
        push_hundredths(&mut out, h);
        out.append(" TB");
    }
    proof {
        assert(Seq::<char>::empty() + hundredths_chars(
            scaled_hundredths(bytes as nat, 1024),
        ) =~= hundredths_chars(scaled_hundredths(bytes as nat, 1024)));
        assert(Seq::<char>::empty() + hundredths_chars(
            scaled_hundredths(bytes as nat, 1024 * 1024),
        ) =~= hundredths_chars(scaled_hundredths(bytes as nat, 1024 * 1024)));
        assert(Seq::<char>::empty() + hundredths_chars(
            scaled_hundredths(bytes as nat, 1024 * 1024 * 1024),
        ) =~= hundredths_chars(scaled_hundredths(bytes as nat, 1024 * 1024 * 1024)));
        assert(Seq::<char>::empty() + hundredths_chars(
            scaled_hundredths(bytes as nat, 1024 * 1024 * 1024 * 1024),
        ) =~= hundredths_chars(scaled_hundredths(bytes as nat, 1024 * 1024 * 1024 * 1024)));
    }
    out
}

/// The rendered duration of `ms`: whole milliseconds below one second, seconds
/// with two decimals below one minute, and minutes with seconds above that.
pub open spec fn format_duration_spec(ms: nat) -> Seq<char> {
    if ms < 1000 {
        decimal_chars(ms) + "ms"@
    } else if ms < 60000 {
        hundredths_chars((ms + 5) / 10) + "s"@
    } else {
        decimal_chars(ms / 60000) + "m "@ + hundredths_chars(((ms % 60000) + 5) / 10) + "s"@
    }
}

/// Renders a duration given in milliseconds.
pub fn format_duration(ms: u64) -> (r: String)
    ensures
        r@ == format_duration_spec(ms as nat),
{
    if ms < 1000 {
        let mut out: String = u64_to_string(ms);
        out.append("ms");
        out
    } else if ms < 60000 {
        let mut out: String = String::new();
        push_hundredths(&mut out, (ms + 5) / 10);
        out.append("s");
        proof {
            assert(Seq::<char>::empty() + hundredths_chars(((ms + 5) / 10) as nat)
                =~= hundredths_chars(((ms + 5) / 10) as nat));
        }
        out
    } else {
        let minutes: u64 = ms / 60000;
        let rem: u64 = ms % 60000;
        let mut out: String = u64_to_string(minutes);
        out.append("m ");
        push_hundredths(&mut out, (rem + 5) / 10);
        out.append("s");
        out
    }
}

} // verus!
