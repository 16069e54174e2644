//! Language classification from extensions, shebang lines, and content
//! heuristics, and the per-language allow-lists of construct node kinds.

use vstd::prelude::*;
use vstd::string::*;

use crate::Language;
use crate::strutil::chars_contain;
use crate::strutil::chars_start_with;
use crate::strutil::starts_with_str;
use crate::strutil::contains_str;
use crate::strutil::find_first_char;
use crate::strutil::lower_chars;
use crate::strutil::lower_str;
use crate::strutil::str_eq;
use crate::utils::extension_chars;
use crate::utils::get_file_extension;

verus! {

/// The language that an already-lowered file extension names, if any.
pub open spec fn ext_language(e: Seq<char>) -> Option<Language> {
    if e == "py"@ || e == "pyw"@ || e == "pyi"@ {
        Option::Some(Language::Python)
    } else if e == "rs"@ {
        Option::Some(Language::Rust)
    } else if e == "js"@ || e == "mjs"@ || e == "cjs"@ {
        Option::Some(Language::JavaScript)
    } else if e == "ts"@ || e == "mts"@ || e == "cts"@ {
        Option::Some(Language::TypeScript)
    } else if e == "java"@ {
        Option::Some(Language::Java)
    } else if e == "c"@ || e == "h"@ {
        Option::Some(Language::C)
    } else if e == "cpp"@ || e == "cc"@ || e == "cxx"@ || e == "c++"@ || e == "hpp"@ || e == "hh"@
        || e == "hxx"@ || e == "h++"@ {
        Option::Some(Language::Cpp)
    } else if e == "go"@ {
        Option::Some(Language::Go)
    } else if e == "cs"@ {
        Option::Some(Language::CSharp)
    } else if e == "php"@ || e == "phtml"@ || e == "php3"@ || e == "php4"@ || e == "php5"@ || e
        == "phps"@ {
        Option::Some(Language::Php)
    } else if e == "rb"@ || e == "rbw"@ {
        Option::Some(Language::Ruby)
    } else if e == "swift"@ {
        Option::Some(Language::Swift)
    } else if e == "kt"@ || e == "kts"@ {
        Option::Some(Language::Kotlin)
    } else if e == "scala"@ || e == "sc"@ {
        Option::Some(Language::Scala)
    } else if e == "hs"@ || e == "lhs"@ {
        Option::Some(Language::Haskell)
    } else if e == "lua"@ {
        Option::Some(Language::Lua)
    } else if e == "pl"@ || e == "pm"@ || e == "t"@ || e == "pod"@ {
        Option::Some(Language::Perl)
    } else if e == "r"@ {
        Option::Some(Language::R)
    } else if e == "sh"@ || e == "bash"@ || e == "zsh"@ || e == "fish"@ {
        Option::Some(Language::Bash)
    } else if e == "ps1"@ || e == "psm1"@ || e == "psd1"@ {
        Option::Some(Language::PowerShell)
    } else if e == "html"@ || e == "htm"@ || e == "xhtml"@ {
        Option::Some(Language::Html)
    } else if e == "css"@ {
        Option::Some(Language::Css)
    } else if e == "sql"@ {
        Option::Some(Language::Sql)
    } else if e == "json"@ {
        Option::Some(Language::Json)
    } else if e == "yaml"@ || e == "yml"@ {
        Option::Some(Language::Yaml)
    } else if e == "toml"@ {
        Option::Some(Language::Toml)
    } else if e == "xml"@ || e == "xsd"@ || e == "xsl"@ || e == "xslt"@ {
        Option::Some(Language::Xml)
    } else {
        Option::None
    }
}

/// The language a path's extension names, if any.
pub open spec fn path_language(p: Seq<char>) -> Option<Language> {
    match extension_chars(p) {
        Option::None => Option::None,
        Option::Some(e) => ext_language(lower_chars(e)),
    }
}

/// Determines a file's language from its extension alone.
pub fn detect_language_by_extension(file_path: &str) -> (r: Option<Language>)
    ensures
        r == path_language(file_path@),
{
    match get_file_extension(file_path) {
        Option::None => Option::None,
        Option::Some(ext) => {
            let e: &str = ext.as_str();
            if str_eq(e, "py") || str_eq(e, "pyw") || str_eq(e, "pyi") {
                Option::Some(Language::Python)
            } else if str_eq(e, "rs") {
                Option::Some(Language::Rust)
            } else if str_eq(e, "js") || str_eq(e, "mjs") || str_eq(e, "cjs") {
                Option::Some(Language::JavaScript)
            } else if str_eq(e, "ts") || str_eq(e, "mts") || str_eq(e, "cts") {
                Option::Some(Language::TypeScript)
            } else if str_eq(e, "java") {
                Option::Some(Language::Java)
            } else if str_eq(e, "c") || str_eq(e, "h") {
                Option::Some(Language::C)
            } else if str_eq(e, "cpp") || str_eq(e, "cc") || str_eq(e, "cxx") || str_eq(e, "c++")
                || str_eq(e, "hpp") || str_eq(e, "hh") || str_eq(e, "hxx") || str_eq(e, "h++") {
                Option::Some(Language::Cpp)
            } else if str_eq(e, "go") {
                Option::Some(Language::Go)
            } else if str_eq(e, "cs") {
                Option::Some(Language::CSharp)
            } else if str_eq(e, "php") || str_eq(e, "phtml") || str_eq(e, "php3") || str_eq(
                e,
                "php4",
            ) || str_eq(e, "php5") || str_eq(e, "phps") {
                Option::Some(Language::Php)
            } else if str_eq(e, "rb") || str_eq(e, "rbw") {
                Option::Some(Language::Ruby)
            } else if str_eq(e, "swift") {
                Option::Some(Language::Swift)
            } else if str_eq(e, "kt") || str_eq(e, "kts") {
                Option::Some(Language::Kotlin)
            } else if str_eq(e, "scala") || str_eq(e, "sc") {
                Option::Some(Language::Scala)
            } else if str_eq(e, "hs") || str_eq(e, "lhs") {
                Option::Some(Language::Haskell)
            } else if str_eq(e, "lua") {
                Option::Some(Language::Lua)
            } else if str_eq(e, "pl") || str_eq(e, "pm") || str_eq(e, "t") || str_eq(e, "pod") {
                Option::Some(Language::Perl)
            } else if str_eq(e, "r") {
                Option::Some(Language::R)
            } else if str_eq(e, "sh") || str_eq(e, "bash") || str_eq(e, "zsh") || str_eq(
                e,
                "fish",
            ) {
                Option::Some(Language::Bash)
            } else if str_eq(e, "ps1") || str_eq(e, "psm1") || str_eq(e, "psd1") {
                Option::Some(Language::PowerShell)
            } else if str_eq(e, "html") || str_eq(e, "htm") || str_eq(e, "xhtml") {
                Option::Some(Language::Html)
            } else if str_eq(e, "css") {
                Option::Some(Language::Css)
            } else if str_eq(e, "sql") {
                Option::Some(Language::Sql)
            } else if str_eq(e, "json") {
                Option::Some(Language::Json)
            } else if str_eq(e, "yaml") || str_eq(e, "yml") {
                Option::Some(Language::Yaml)
            } else if str_eq(e, "toml") {
                Option::Some(Language::Toml)
            } else if str_eq(e, "xml") || str_eq(e, "xsd") || str_eq(e, "xsl") || str_eq(
                e,
                "xslt",
            ) {
                Option::Some(Language::Xml)
            } else {
                Option::None
            }
        },
    }
}

/// The characters of `s` strictly before the first occurrence of `c`;
/// all of `s` when `c` does not occur.
pub open spec fn before_first(s: Seq<char>, c: char) -> Seq<char>
    decreases s.len(),
{
    if s.len() == 0 {
        s
    } else if s[0] == c {
        Seq::empty()
    } else {
        seq![s[0]] + before_first(s.drop_first(), c)
    }
}

/// With the first occurrence of `c` at position `i`, `before_first` is the
/// prefix in front of it.
pub proof fn lemma_before_first(s: Seq<char>, c: char, i: int)
    requires
        0 <= i <= s.len(),
        forall|j: int| 0 <= j < i ==> s[j] != c,
        i == s.len() || s[i] == c,
    ensures
        before_first(s, c) =~= s.subrange(0, i),
    decreases s.len(),
{
    if s.len() == 0 {
        assert(s.subrange(0, 0) =~= s);
    } else if s[0] == c {
        assert(i == 0);
        assert(s.subrange(0, 0) =~= Seq::<char>::empty());
    } else {
        assert(i >= 1);
        lemma_before_first(s.drop_first(), c, i - 1);
        assert(seq![s[0]] + s.drop_first().subrange(0, i - 1) =~= s.subrange(0, i));
    }
}

/// The first line of a text: everything before the first line feed, with a
/// trailing carriage return removed.
pub open spec fn first_line_chars(s: Seq<char>) -> Seq<char> {
    let pre = before_first(s, '\n');
    if pre.len() > 0 && pre.last() == '\r' {
        pre.drop_last()
    } else {
        pre
    }
}

/// The language a shebang line names, if any: the first line must start with
/// `#!`, and the interpreter name decides.
pub open spec fn shebang_language(content: Seq<char>) -> Option<Language> {
    let line = first_line_chars(content);
    if !chars_start_with(line, "#!"@) {
        Option::None
    } else {
        let low = lower_chars(line);
        if chars_contain(low, "python"@) {
            Option::Some(Language::Python)
        } else if chars_contain(low, "node"@) {
            Option::Some(Language::JavaScript)
        } else if chars_contain(low, "bash"@) || chars_contain(low, "/bin/sh"@) {
            Option::Some(Language::Bash)
        } else if chars_contain(low, "ruby"@) {
            Option::Some(Language::Ruby)
        } else if chars_contain(low, "perl"@) {
            Option::Some(Language::Perl)
        } else if chars_contain(low, "php"@) {
            Option::Some(Language::Php)
        } else {
            Option::None
        }
    }
}

/// Determines a file's language from its first (shebang) line.
pub fn detect_language_by_shebang(content: &str) -> (r: Option<Language>)
    ensures
        r == shebang_language(content@),
{
    let n: usize = content.unicode_len();
    let end: usize = match find_first_char(content, '\n') {
        Option::Some(i) => {
            proof {
                lemma_before_first(content@, '\n', i as int);
            }
            i
        },
        Option::None => {
            proof {
                lemma_before_first(content@, '\n', n as int);
            }
            n
        },
    };
    let mut line: &str = content.substring_char(0, end);
    if end > 0 && line.get_char(end - 1) == '\r' {
        line = content.substring_char(0, end - 1);
        proof {
            assert(content@.subrange(0, end as int).drop_last() =~= content@.subrange(
                0,
                end - 1,
            ));
        }
    }
    proof {
        assert(line@ == first_line_chars(content@));
    }
    if !starts_with_str(line, "#!") {
        return Option::None;
    }
    let lowered: String = lower_str(line);
    let low: &str = lowered.as_str();
    if contains_str(low, "python") {
        Option::Some(Language::Python)
    } else if contains_str(low, "node") {
        Option::Some(Language::JavaScript)
    } else if contains_str(low, "bash") || contains_str(low, "/bin/sh") {
        Option::Some(Language::Bash)
    } else if contains_str(low, "ruby") {
        Option::Some(Language::Ruby)
    } else if contains_str(low, "perl") {
        Option::Some(Language::Perl)
    } else if contains_str(low, "php") {
        Option::Some(Language::Php)
    } else {
        Option::None
    }
}

/// The language simple lowered-content heuristics name, if any.
pub open spec fn content_language(content: Seq<char>) -> Option<Language> {
    let low = lower_chars(content);
    if chars_contain(low, "def "@) && chars_contain(low, "import "@) {
        Option::Some(Language::Python)
    } else if chars_contain(low, "fn "@) && chars_contain(low, "use "@) {
        Option::Some(Language::Rust)
    } else if chars_contain(low, "function "@) && chars_contain(low, "var "@) {
        Option::Some(Language::JavaScript)
    } else if chars_contain(low, "public class "@) && chars_contain(low, "import "@) {
        Option::Some(Language::Java)
    } else if chars_contain(low, "#include"@) && chars_contain(low, "int main"@) {
        Option::Some(Language::C)
    } else {
        Option::None
    }
}

/// Determines a file's language from simple content patterns.
pub fn detect_language_by_content(content: &str) -> (r: Option<Language>)
    ensures
        r == content_language(content@),
{
    let lowered: String = lower_str(content);
    let low: &str = lowered.as_str();
    if contains_str(low, "def ") && contains_str(low, "import ") {
        Option::Some(Language::Python)
    } else if contains_str(low, "fn ") && contains_str(low, "use ") {
        Option::Some(Language::Rust)
    } else if contains_str(low, "function ") && contains_str(low, "var ") {
        Option::Some(Language::JavaScript)
    } else if contains_str(low, "public class ") && contains_str(low, "import ") {
        Option::Some(Language::Java)
    } else if contains_str(low, "#include") && contains_str(low, "int main") {
        Option::Some(Language::C)
    } else {
        Option::None
    }
}

/// Combined detection: extension first, then shebang, then content heuristics.
pub open spec fn combined_language(path: Seq<char>, content: Option<Seq<char>>) -> Option<
    Language,
> {
    if path_language(path) is Some {
        path_language(path)
    } else {
        match content {
            Option::None => Option::None,
            Option::Some(c) => if shebang_language(c) is Some {
                shebang_language(c)
            } else {
                content_language(c)
            },
        }
    }
}

/// Determines a file's language by every available method, first hit wins.
pub fn detect_language(file_path: &str, content: Option<&str>) -> (r: Option<Language>)
    ensures
        r == combined_language(
            file_path@,
            match content {
                Option::None => Option::None,
                Option::Some(c) => Option::Some(c@),
            },
        ),
{
    let by_ext: Option<Language> = detect_language_by_extension(file_path);
    if let Option::Some(lang) = by_ext {
        return Option::Some(lang);
    }
    match content {
        Option::None => Option::None,
        Option::Some(c) => {
            let by_shebang: Option<Language> = detect_language_by_shebang(c);
            if let Option::Some(lang) = by_shebang {
                return Option::Some(lang);
            }
            detect_language_by_content(c)
        },
    }
}

/// The canonical display name of a language.
pub open spec fn language_name(lang: Language) -> Seq<char> {
    match lang {
        Language::Python => "Python"@,
        Language::Rust => "Rust"@,
        Language::JavaScript => "JavaScript"@,
        Language::TypeScript => "TypeScript"@,
        Language::Java => "Java"@,
        Language::C => "C"@,
        Language::Cpp => "C++"@,
        Language::Go => "Go"@,
        Language::CSharp => "C#"@,
        Language::Php => "PHP"@,
        Language::Ruby => "Ruby"@,
        Language::Swift => "Swift"@,
        Language::Kotlin => "Kotlin"@,
        Language::Scala => "Scala"@,
        Language::Haskell => "Haskell"@,
        Language::Lua => "Lua"@,
        Language::Perl => "Perl"@,
        Language::R => "R"@,
        Language::Bash => "Bash"@,
        Language::PowerShell => "PowerShell"@,
        Language::Html => "HTML"@,
        Language::Css => "CSS"@,
        Language::Sql => "SQL"@,
        Language::Json => "JSON"@,
        Language::Yaml => "YAML"@,
        Language::Toml => "TOML"@,
        Language::Xml => "XML"@,
    }
}

/// The language a (case-insensitive) name or alias denotes, if any.
pub open spec fn language_from_chars(s: Seq<char>) -> Option<Language> {
    let l = lower_chars(s);
    if l == "python"@ || l == "py"@ {
        Option::Some(Language::Python)
    } else if l == "rust"@ || l == "rs"@ {
        Option::Some(Language::Rust)
    } else if l == "javascript"@ || l == "js"@ {
        Option::Some(Language::JavaScript)
    } else if l == "typescript"@ || l == "ts"@ {
        Option::Some(Language::TypeScript)
    } else if l == "java"@ {
        Option::Some(Language::Java)
    } else if l == "c"@ {
        Option::Some(Language::C)
    } else if l == "cpp"@ || l == "c++"@ || l == "cxx"@ {
        Option::Some(Language::Cpp)
    } else if l == "go"@ || l == "golang"@ {
        Option::Some(Language::Go)
    } else if l == "csharp"@ || l == "c#"@ || l == "cs"@ {
        Option::Some(Language::CSharp)
    } else if l == "php"@ {
        Option::Some(Language::Php)
    } else if l == "ruby"@ || l == "rb"@ {
        Option::Some(Language::Ruby)
    } else if l == "swift"@ {
        Option::Some(Language::Swift)
    } else if l == "kotlin"@ || l == "kt"@ {
        Option::Some(Language::Kotlin)
    } else if l == "scala"@ {
        Option::Some(Language::Scala)
    } else if l == "haskell"@ || l == "hs"@ {
        Option::Some(Language::Haskell)
    } else if l == "lua"@ {
        Option::Some(Language::Lua)
    } else if l == "perl"@ || l == "pl"@ {
        Option::Some(Language::Perl)
    } else if l == "r"@ {
        Option::Some(Language::R)
    } else if l == "bash"@ || l == "sh"@ {
        Option::Some(Language::Bash)
    } else if l == "powershell"@ || l == "ps1"@ {
        Option::Some(Language::PowerShell)
    } else if l == "html"@ {
        Option::Some(Language::Html)
    } else if l == "css"@ {
        Option::Some(Language::Css)
    } else if l == "sql"@ {
        Option::Some(Language::Sql)
    } else if l == "json"@ {
        Option::Some(Language::Json)
    } else if l == "yaml"@ || l == "yml"@ {
        Option::Some(Language::Yaml)
    } else if l == "toml"@ {
        Option::Some(Language::Toml)
    } else if l == "xml"@ {
        Option::Some(Language::Xml)
    } else {
        Option::None
    }
}

/// Parses a language name or alias, case-insensitively.
pub fn language_from_string(lang_str: &str) -> (r: Option<Language>)
    ensures
        r == language_from_chars(lang_str@),
{
    let lowered: String = lower_str(lang_str);
    let l: &str = lowered.as_str();
    if str_eq(l, "python") || str_eq(l, "py") {
        Option::Some(Language::Python)
    } else if str_eq(l, "rust") || str_eq(l, "rs") {
        Option::Some(Language::Rust)
    } else if str_eq(l, "javascript") || str_eq(l, "js") {
        Option::Some(Language::JavaScript)
    } else if str_eq(l, "typescript") || str_eq(l, "ts") {
        Option::Some(Language::TypeScript)
    } else if str_eq(l, "java") {
        Option::Some(Language::Java)
    } else if str_eq(l, "c") {
        Option::Some(Language::C)
    } else if str_eq(l, "cpp") || str_eq(l, "c++") || str_eq(l, "cxx") {
        Option::Some(Language::Cpp)
    } else if str_eq(l, "go") || str_eq(l, "golang") {
        Option::Some(Language::Go)
    } else if str_eq(l, "csharp") || str_eq(l, "c#") || str_eq(l, "cs") {
        Option::Some(Language::CSharp)
    } else if str_eq(l, "php") {
        Option::Some(Language::Php)
    } else if str_eq(l, "ruby") || str_eq(l, "rb") {
        Option::Some(Language::Ruby)
    } else if str_eq(l, "swift") {
        Option::Some(Language::Swift)
    } else if str_eq(l, "kotlin") || str_eq(l, "kt") {
        Option::Some(Language::Kotlin)
    } else if str_eq(l, "scala") {
        Option::Some(Language::Scala)
    } else if str_eq(l, "haskell") || str_eq(l, "hs") {
        Option::Some(Language::Haskell)
    } else if str_eq(l, "lua") {
        Option::Some(Language::Lua)
    } else if str_eq(l, "perl") || str_eq(l, "pl") {
        Option::Some(Language::Perl)
    } else if str_eq(l, "r") {
        Option::Some(Language::R)
    } else if str_eq(l, "bash") || str_eq(l, "sh") {
        Option::Some(Language::Bash)
    } else if str_eq(l, "powershell") || str_eq(l, "ps1") {
        Option::Some(Language::PowerShell)
    } else if str_eq(l, "html") {
        Option::Some(Language::Html)
    } else if str_eq(l, "css") {
        Option::Some(Language::Css)
    } else if str_eq(l, "sql") {
        Option::Some(Language::Sql)
    } else if str_eq(l, "json") {
        Option::Some(Language::Json)
    } else if str_eq(l, "yaml") || str_eq(l, "yml") {
        Option::Some(Language::Yaml)
    } else if str_eq(l, "toml") {
        Option::Some(Language::Toml)
    } else if str_eq(l, "xml") {
        Option::Some(Language::Xml)
    } else {
        Option::None
    }
}

/// Renders a language's canonical display name.
pub fn language_to_string(language: &Language) -> (r: String)
    ensures
        r@ == language_name(*language),
{
    match language {
        Language::Python => String::from_str("Python"),
        Language::Rust => String::from_str("Rust"),
        Language::JavaScript => String::from_str("JavaScript"),
        Language::TypeScript => String::from_str("TypeScript"),
        Language::Java => String::from_str("Java"),
        Language::C => String::from_str("C"),
        Language::Cpp => String::from_str("C++"),
        Language::Go => String::from_str("Go"),
        Language::CSharp => String::from_str("C#"),
        Language::Php => String::from_str("PHP"),
        Language::Ruby => String::from_str("Ruby"),
        Language::Swift => String::from_str("Swift"),
        Language::Kotlin => String::from_str("Kotlin"),
        Language::Scala => String::from_str("Scala"),
        Language::Haskell => String::from_str("Haskell"),
        Language::Lua => String::from_str("Lua"),
        Language::Perl => String::from_str("Perl"),
        Language::R => String::from_str("R"),
        Language::Bash => String::from_str("Bash"),
        Language::PowerShell => String::from_str("PowerShell"),
        Language::Html => String::from_str("HTML"),
        Language::Css => String::from_str("CSS"),
        Language::Sql => String::from_str("SQL"),
        Language::Json => String::from_str("JSON"),
        Language::Yaml => String::from_str("YAML"),
        Language::Toml => String::from_str("TOML"),
        Language::Xml => String::from_str("XML"),
    }
}

/// Lowering a character twice is the same as lowering it once.
pub proof fn lemma_lower_char_idempotent(c: char)
    ensures
        crate::strutil::lower_char(crate::strutil::lower_char(c)) == crate::strutil::lower_char(c),
{
}

/// Lowering a string twice is the same as lowering it once.
pub proof fn lemma_lower_chars_idempotent(s: Seq<char>)
    ensures
        lower_chars(lower_chars(s)) =~= lower_chars(s),
{
    assert forall|i: int| 0 <= i < s.len() implies lower_chars(lower_chars(s))[i] == lower_chars(
        s,
    )[i] by {
        lemma_lower_char_idempotent(s[i]);
    }
}

/// Case-insensitive aliasing: a name and its lowered form denote the same
/// language tag.
pub proof fn lemma_language_alias_case_insensitive(s: Seq<char>)
    ensures
        language_from_chars(s) == language_from_chars(lower_chars(s)),
{
    lemma_lower_chars_idempotent(s);
}

/// Round-tripping a language tag through its canonical name is stable:
/// parsing the rendered name yields the same tag, for every tag.
/// Two character sequences differing at one index are different.
pub proof fn lemma_chars_differ(a: Seq<char>, b: Seq<char>, i: int)
    requires
        0 <= i < a.len(),
        0 <= i < b.len(),
        a[i] != b[i],
    ensures
        a != b,
{
}

#[verifier::rlimit(100)]
pub proof fn lemma_language_round_trip(lang: Language)
    ensures
        language_from_chars(language_name(lang)) == Option::Some(lang),
{
    reveal_strlit("python");
    reveal_strlit("py");
    reveal_strlit("rust");
    reveal_strlit("rs");
    reveal_strlit("javascript");
    reveal_strlit("js");
    reveal_strlit("typescript");
    reveal_strlit("ts");
    reveal_strlit("java");
    reveal_strlit("c");
    reveal_strlit("cpp");
    reveal_strlit("c++");
    reveal_strlit("cxx");
    reveal_strlit("go");
    reveal_strlit("golang");
    reveal_strlit("csharp");
    reveal_strlit("c#");
    reveal_strlit("cs");
    reveal_strlit("php");
    reveal_strlit("ruby");
    reveal_strlit("rb");
    reveal_strlit("swift");
    reveal_strlit("kotlin");
    reveal_strlit("kt");
    reveal_strlit("scala");
    reveal_strlit("haskell");
    reveal_strlit("hs");
    reveal_strlit("lua");
    reveal_strlit("perl");
    reveal_strlit("pl");
    reveal_strlit("r");
    reveal_strlit("bash");
    reveal_strlit("sh");
    reveal_strlit("powershell");
    reveal_strlit("ps1");
    reveal_strlit("html");
    reveal_strlit("css");
    reveal_strlit("sql");
    reveal_strlit("json");
    reveal_strlit("yaml");
    reveal_strlit("yml");
    reveal_strlit("toml");
    reveal_strlit("xml");
    match lang {
        Language::Python => {
            reveal_strlit("Python");
            assert(lower_chars(language_name(lang)) =~= "python"@);
            assert(language_from_chars(language_name(lang)) == Option::Some(lang));
        },
        Language::Rust => {
            reveal_strlit("Rust");
            assert(lower_chars(language_name(lang)) =~= "rust"@);
            assert(language_from_chars(language_name(lang)) == Option::Some(lang));
        },
        Language::JavaScript => {
            reveal_strlit("JavaScript");
            assert(lower_chars(language_name(lang)) =~= "javascript"@);
            assert(language_from_chars(language_name(lang)) == Option::Some(lang));
        },
        Language::TypeScript => {
            reveal_strlit("TypeScript");
            assert(lower_chars(language_name(lang)) =~= "typescript"@);
            lemma_chars_differ("typescript"@, "javascript"@, 0);
            assert(language_from_chars(language_name(lang)) == Option::Some(lang));
        },
        Language::Java => {
            reveal_strlit("Java");
            assert(lower_chars(language_name(lang)) =~= "java"@);
            lemma_chars_differ("java"@, "rust"@, 0);
            assert(language_from_chars(language_name(lang)) == Option::Some(lang));
        },
        Language::C => {
            reveal_strlit("C");
            assert(lower_chars(language_name(lang)) =~= "c"@);
            assert(language_from_chars(language_name(lang)) == Option::Some(lang));
        },
        Language::Cpp => {
            reveal_strlit("C++");
            assert(lower_chars(language_name(lang)) =~= "c++"@);
            assert(language_from_chars(language_name(lang)) == Option::Some(lang));
        },
        Language::Go => {
            reveal_strlit("Go");
            assert(lower_chars(language_name(lang)) =~= "go"@);
            lemma_chars_differ("go"@, "py"@, 0);
            lemma_chars_differ("go"@, "rs"@, 0);
            lemma_chars_differ("go"@, "js"@, 0);
            lemma_chars_differ("go"@, "ts"@, 0);
            assert(language_from_chars(language_name(lang)) == Option::Some(lang));
        },
        Language::CSharp => {
            reveal_strlit("C#");
            assert(lower_chars(language_name(lang)) =~= "c#"@);
            lemma_chars_differ("c#"@, "py"@, 0);
            lemma_chars_differ("c#"@, "rs"@, 0);
            lemma_chars_differ("c#"@, "js"@, 0);
            lemma_chars_differ("c#"@, "ts"@, 0);
            lemma_chars_differ("c#"@, "go"@, 0);
            assert(language_from_chars(language_name(lang)) == Option::Some(lang));
        },
        Language::Php => {
            reveal_strlit("PHP");
            assert(lower_chars(language_name(lang)) =~= "php"@);
            lemma_chars_differ("php"@, "cpp"@, 0);
            lemma_chars_differ("php"@, "c++"@, 0);
            lemma_chars_differ("php"@, "cxx"@, 0);
            assert(language_from_chars(language_name(lang)) == Option::Some(lang));
        },
        Language::Ruby => {
            reveal_strlit("Ruby");
            assert(lower_chars(language_name(lang)) =~= "ruby"@);
            lemma_chars_differ("ruby"@, "rust"@, 2);
            lemma_chars_differ("ruby"@, "java"@, 0);
            assert(language_from_chars(language_name(lang)) == Option::Some(lang));
        },
        Language::Swift => {
            reveal_strlit("Swift");
            assert(lower_chars(language_name(lang)) =~= "swift"@);
            assert(language_from_chars(language_name(lang)) == Option::Some(lang));
        },
        Language::Kotlin => {
            reveal_strlit("Kotlin");
            assert(lower_chars(language_name(lang)) =~= "kotlin"@);
            lemma_chars_differ("kotlin"@, "python"@, 0);
            lemma_chars_differ("kotlin"@, "golang"@, 0);
            lemma_chars_differ("kotlin"@, "csharp"@, 0);
            assert(language_from_chars(language_name(lang)) == Option::Some(lang));
        },
        Language::Scala => {
            reveal_strlit("Scala");
            assert(lower_chars(language_name(lang)) =~= "scala"@);
            lemma_chars_differ("scala"@, "swift"@, 1);
            assert(language_from_chars(language_name(lang)) == Option::Some(lang));
        },
        Language::Haskell => {
            reveal_strlit("Haskell");
            assert(lower_chars(language_name(lang)) =~= "haskell"@);
            assert(language_from_chars(language_name(lang)) == Option::Some(lang));
        },
        Language::Lua => {
            reveal_strlit("Lua");
            assert(lower_chars(language_name(lang)) =~= "lua"@);
            lemma_chars_differ("lua"@, "cpp"@, 0);
            lemma_chars_differ("lua"@, "c++"@, 0);
            lemma_chars_differ("lua"@, "cxx"@, 0);
            lemma_chars_differ("lua"@, "php"@, 0);
            assert(language_from_chars(language_name(lang)) == Option::Some(lang));
        },
        Language::Perl => {
            reveal_strlit("Perl");
            assert(lower_chars(language_name(lang)) =~= "perl"@);
            lemma_chars_differ("perl"@, "rust"@, 0);
            lemma_chars_differ("perl"@, "java"@, 0);
            lemma_chars_differ("perl"@, "ruby"@, 0);
            assert(language_from_chars(language_name(lang)) == Option::Some(lang));
        },
        Language::R => {
            reveal_strlit("R");
            assert(lower_chars(language_name(lang)) =~= "r"@);
            lemma_chars_differ("r"@, "c"@, 0);
            assert(language_from_chars(language_name(lang)) == Option::Some(lang));
        },
        Language::Bash => {
            reveal_strlit("Bash");
            assert(lower_chars(language_name(lang)) =~= "bash"@);
            lemma_chars_differ("bash"@, "rust"@, 0);
            lemma_chars_differ("bash"@, "java"@, 0);
            lemma_chars_differ("bash"@, "ruby"@, 0);
            lemma_chars_differ("bash"@, "perl"@, 0);
            assert(language_from_chars(language_name(lang)) == Option::Some(lang));
        },
        Language::PowerShell => {
            reveal_strlit("PowerShell");
            assert(lower_chars(language_name(lang)) =~= "powershell"@);
            lemma_chars_differ("powershell"@, "javascript"@, 0);
            lemma_chars_differ("powershell"@, "typescript"@, 0);
            assert(language_from_chars(language_name(lang)) == Option::Some(lang));
        },
        Language::Html => {
            reveal_strlit("HTML");
            assert(lower_chars(language_name(lang)) =~= "html"@);
            lemma_chars_differ("html"@, "rust"@, 0);
            lemma_chars_differ("html"@, "java"@, 0);
            lemma_chars_differ("html"@, "ruby"@, 0);
            lemma_chars_differ("html"@, "perl"@, 0);
            lemma_chars_differ("html"@, "bash"@, 0);
            assert(language_from_chars(language_name(lang)) == Option::Some(lang));
        },
        Language::Css => {
            reveal_strlit("CSS");
            assert(lower_chars(language_name(lang)) =~= "css"@);
            lemma_chars_differ("css"@, "cpp"@, 1);
            lemma_chars_differ("css"@, "c++"@, 1);
            lemma_chars_differ("css"@, "cxx"@, 1);
            lemma_chars_differ("css"@, "php"@, 0);
            lemma_chars_differ("css"@, "lua"@, 0);
            lemma_chars_differ("css"@, "ps1"@, 0);
            assert(language_from_chars(language_name(lang)) == Option::Some(lang));
        },
        Language::Sql => {
            reveal_strlit("SQL");
            assert(lower_chars(language_name(lang)) =~= "sql"@);
            lemma_chars_differ("sql"@, "cpp"@, 0);
            lemma_chars_differ("sql"@, "c++"@, 0);
            lemma_chars_differ("sql"@, "cxx"@, 0);
            lemma_chars_differ("sql"@, "php"@, 0);
            lemma_chars_differ("sql"@, "lua"@, 0);
            lemma_chars_differ("sql"@, "ps1"@, 0);
            lemma_chars_differ("sql"@, "css"@, 0);
            assert(language_from_chars(language_name(lang)) == Option::Some(lang));
        },
        Language::Json => {
            reveal_strlit("JSON");
            assert(lower_chars(language_name(lang)) =~= "json"@);
            lemma_chars_differ("json"@, "rust"@, 0);
            lemma_chars_differ("json"@, "java"@, 1);
            lemma_chars_differ("json"@, "ruby"@, 0);
            lemma_chars_differ("json"@, "perl"@, 0);
            lemma_chars_differ("json"@, "bash"@, 0);
            lemma_chars_differ("json"@, "html"@, 0);
            assert(language_from_chars(language_name(lang)) == Option::Some(lang));
        },
        Language::Yaml => {
            reveal_strlit("YAML");
            assert(lower_chars(language_name(lang)) =~= "yaml"@);
            lemma_chars_differ("yaml"@, "rust"@, 0);
            lemma_chars_differ("yaml"@, "java"@, 0);
            lemma_chars_differ("yaml"@, "ruby"@, 0);
            lemma_chars_differ("yaml"@, "perl"@, 0);
            lemma_chars_differ("yaml"@, "bash"@, 0);
            lemma_chars_differ("yaml"@, "html"@, 0);
            lemma_chars_differ("yaml"@, "json"@, 0);
            assert(language_from_chars(language_name(lang)) == Option::Some(lang));
        },
        Language::Toml => {
            reveal_strlit("TOML");
            assert(lower_chars(language_name(lang)) =~= "toml"@);
            lemma_chars_differ("toml"@, "rust"@, 0);
            lemma_chars_differ("toml"@, "java"@, 0);
            lemma_chars_differ("toml"@, "ruby"@, 0);
            lemma_chars_differ("toml"@, "perl"@, 0);
            lemma_chars_differ("toml"@, "bash"@, 0);
            lemma_chars_differ("toml"@, "html"@, 0);
            lemma_chars_differ("toml"@, "json"@, 0);
            lemma_chars_differ("toml"@, "yaml"@, 0);
            assert(language_from_chars(language_name(lang)) == Option::Some(lang));
        },
        Language::Xml => {
            reveal_strlit("XML");
            assert(lower_chars(language_name(lang)) =~= "xml"@);
            lemma_chars_differ("xml"@, "cpp"@, 0);
            lemma_chars_differ("xml"@, "c++"@, 0);
            lemma_chars_differ("xml"@, "cxx"@, 0);
            lemma_chars_differ("xml"@, "php"@, 0);
            lemma_chars_differ("xml"@, "lua"@, 0);
            lemma_chars_differ("xml"@, "ps1"@, 0);
            lemma_chars_differ("xml"@, "css"@, 0);
            lemma_chars_differ("xml"@, "sql"@, 0);
            lemma_chars_differ("xml"@, "yml"@, 0);
            assert(language_from_chars(language_name(lang)) == Option::Some(lang));
        },
    }
}

/// The languages that have a grammar compiled into the library.
pub open spec fn language_supported(lang: Language) -> bool {
    match lang {
        Language::Python => true,
        Language::Rust => true,
        Language::JavaScript => true,
        Language::TypeScript => true,
        Language::Java => true,
        Language::C => true,
        Language::Cpp => true,
        Language::Go => true,
        _ => false,
    }
}

/// The name of a language as the unsupported-language error reports it.
pub open spec fn language_variant_name(lang: Language) -> Seq<char> {
    match lang {
        Language::Python => "Python"@,
        Language::Rust => "Rust"@,
        Language::JavaScript => "JavaScript"@,
        Language::TypeScript => "TypeScript"@,
        Language::Java => "Java"@,
        Language::C => "C"@,
        Language::Cpp => "Cpp"@,
        Language::Go => "Go"@,
        Language::CSharp => "CSharp"@,
        Language::Php => "Php"@,
        Language::Ruby => "Ruby"@,
        Language::Swift => "Swift"@,
        Language::Kotlin => "Kotlin"@,
        Language::Scala => "Scala"@,
        Language::Haskell => "Haskell"@,
        Language::Lua => "Lua"@,
        Language::Perl => "Perl"@,
        Language::R => "R"@,
        Language::Bash => "Bash"@,
        Language::PowerShell => "PowerShell"@,
        Language::Html => "Html"@,
        Language::Css => "Css"@,
        Language::Sql => "Sql"@,
        Language::Json => "Json"@,
        Language::Yaml => "Yaml"@,
        Language::Toml => "Toml"@,
        Language::Xml => "Xml"@,
    }
}

/// Relies on the `LANGUAGE` constants of the tree-sitter grammar crates
/// (tree-sitter-python and its siblings) and on `From<LanguageFn>` of
/// tree-sitter's `Language`: returns the grammar bound to each supported
/// language, and the unsupported-language error, carrying the variant's
/// name, for every other language.
#[verifier::external_body]
pub fn get_tree_sitter_language(language: &Language) -> (r: Result<
    tree_sitter::Language,
    crate::Error,
>)
    ensures
        r is Ok <==> language_supported(*language),
        r matches Err(e) ==> e matches crate::Error::UnsupportedLanguage(m) && m@
            == language_variant_name(*language),
{
    match language {
        Language::Python => Ok(tree_sitter_python::LANGUAGE.into()),
        Language::Rust => Ok(tree_sitter_rust::LANGUAGE.into()),
        Language::JavaScript => Ok(tree_sitter_javascript::LANGUAGE.into()),
        Language::TypeScript => Ok(tree_sitter_typescript::LANGUAGE_TYPESCRIPT.into()),
        Language::Java => Ok(tree_sitter_java::LANGUAGE.into()),
        Language::C => Ok(tree_sitter_c::LANGUAGE.into()),
        Language::Cpp => Ok(tree_sitter_cpp::LANGUAGE.into()),
        Language::Go => Ok(tree_sitter_go::LANGUAGE.into()),
        _ => Err(crate::Error::UnsupportedLanguage(format!("{:?}", language))),
    }
}

/// The construct node kinds that are allow-listed for a language.
pub open spec fn allowed_kinds(lang: Language) -> Seq<Seq<char>> {
    match lang {
        Language::Python => seq![
            "function_definition"@,
            "class_definition"@,
            "import_statement"@,
            "import_from_statement"@,
            "assignment"@,
            "decorated_definition"@,
        ],
        Language::Rust => seq![
            "function_item"@,
            "struct_item"@,
            "enum_item"@,
            "impl_item"@,
            "trait_item"@,
            "mod_item"@,
            "use_declaration"@,
            "const_item"@,
            "static_item"@,
        ],
        Language::JavaScript => seq![
            "function_declaration"@,
            "function_expression"@,
            "arrow_function"@,
            "class_declaration"@,
            "method_definition"@,
            "variable_declaration"@,
            "import_statement"@,
            "export_statement"@,
        ],
        Language::TypeScript => seq![
            "function_declaration"@,
            "function_expression"@,
            "arrow_function"@,
            "class_declaration"@,
            "interface_declaration"@,
            "type_alias_declaration"@,
            "method_definition"@,
            "variable_declaration"@,
            "import_statement"@,
            "export_statement"@,
        ],
        Language::Java => seq![
            "class_declaration"@,
            "interface_declaration"@,
            "method_declaration"@,
            "constructor_declaration"@,
            "field_declaration"@,
            "import_declaration"@,
            "package_declaration"@,
        ],
        Language::C => seq![
            "function_definition"@,
            "declaration"@,
            "struct_specifier"@,
            "union_specifier"@,
            "enum_specifier"@,
            "preproc_include"@,
            "preproc_define"@,
        ],
        Language::Cpp => seq![
            "function_definition"@,
            "declaration"@,
            "class_specifier"@,
            "struct_specifier"@,
            "union_specifier"@,
            "enum_specifier"@,
            "namespace_definition"@,
            "preproc_include"@,
            "preproc_define"@,
        ],
        Language::Go => seq![
            "function_declaration"@,
            "method_declaration"@,
            "type_declaration"@,
            "var_declaration"@,
            "const_declaration"@,
            "import_declaration"@,
            "package_clause"@,
        ],
        _ => Seq::empty(),
    }
}

/// A node kind is a construct kind for a language.
pub open spec fn kind_allowed(lang: Language, kind: Seq<char>) -> bool {
    allowed_kinds(lang).contains(kind)
}

/// The allow-listed construct node kinds of a language, as owned strings.
pub fn get_supported_node_types(language: &Language) -> (r: Vec<String>)
    ensures
        r.deep_view() =~= allowed_kinds(*language),
{
    let r: Vec<String> = match language {
        Language::Python => vec![
            String::from_str("function_definition"),
            String::from_str("class_definition"),
            String::from_str("import_statement"),
            String::from_str("import_from_statement"),
            String::from_str("assignment"),
            String::from_str("decorated_definition"),
        ],
        Language::Rust => vec![
            String::from_str("function_item"),
            String::from_str("struct_item"),
            String::from_str("enum_item"),
            String::from_str("impl_item"),
            String::from_str("trait_item"),
            String::from_str("mod_item"),
            String::from_str("use_declaration"),
            String::from_str("const_item"),
            String::from_str("static_item"),
        ],
        Language::JavaScript => vec![
            String::from_str("function_declaration"),
            String::from_str("function_expression"),
            String::from_str("arrow_function"),
            String::from_str("class_declaration"),
            String::from_str("method_definition"),
            String::from_str("variable_declaration"),
            String::from_str("import_statement"),
            String::from_str("export_statement"),
        ],
        Language::TypeScript => vec![
            String::from_str("function_declaration"),
            String::from_str("function_expression"),
            String::from_str("arrow_function"),
            String::from_str("class_declaration"),
            String::from_str("interface_declaration"),
            String::from_str("type_alias_declaration"),
            String::from_str("method_definition"),
            String::from_str("variable_declaration"),
            String::from_str("import_statement"),
            String::from_str("export_statement"),
        ],
        Language::Java => vec![
            String::from_str("class_declaration"),
            String::from_str("interface_declaration"),
            String::from_str("method_declaration"),
            String::from_str("constructor_declaration"),
            String::from_str("field_declaration"),
            String::from_str("import_declaration"),
            String::from_str("package_declaration"),
        ],
        Language::C => vec![
            String::from_str("function_definition"),
            String::from_str("declaration"),
            String::from_str("struct_specifier"),
            String::from_str("union_specifier"),
            String::from_str("enum_specifier"),
            String::from_str("preproc_include"),
            String::from_str("preproc_define"),
        ],
        Language::Cpp => vec![
            String::from_str("function_definition"),
            String::from_str("declaration"),
            String::from_str("class_specifier"),
            String::from_str("struct_specifier"),
            String::from_str("union_specifier"),
            String::from_str("enum_specifier"),
            String::from_str("namespace_definition"),
            String::from_str("preproc_include"),
            String::from_str("preproc_define"),
        ],
        Language::Go => vec![
            String::from_str("function_declaration"),
            String::from_str("method_declaration"),
            String::from_str("type_declaration"),
            String::from_str("var_declaration"),
            String::from_str("const_declaration"),
            String::from_str("import_declaration"),
            String::from_str("package_clause"),
        ],
        _ => Vec::new(),
    };
    proof {
        assert(r.deep_view() =~= allowed_kinds(*language));
    }
    r
}

} // verus!
