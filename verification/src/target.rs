//! Target ISA enumeration (amd64 ≡ x86_64).

use vstd::prelude::*;

use crate::text::{push_char, string_is};

verus! {

/// A target instruction set.
#[derive(Debug, Clone, Copy, PartialEq, Eq, Hash, Structural)]
pub enum TargetIsa {
    /// x86_64 / **amd64** (same backend).
    X86_64,
    Arm,
    AArch64,
    Mips,
    Ppc,
    Sparc,
    /// SuperH / Hitachi — SH-2 (Saturn) · SH-4 (Dreamcast) flavor via [`SuperHFlavor`].
    SuperH(SuperHFlavor),
}

/// The SuperH flavor.
#[derive(Debug, Clone, Copy, PartialEq, Eq, Hash, Structural)]
pub enum SuperHFlavor {
    Sh2,
    Sh4,
}

impl Default for SuperHFlavor {
    fn default() -> (f: Self)
        ensures
            f == SuperHFlavor::Sh2,
    {
        SuperHFlavor::Sh2
    }
}

/// A name that names no target ISA; it holds the name as it was compared
/// (trimmed and lower-cased).
#[derive(Debug)]
pub struct ParseTargetError(pub String);

/// The canonical name of an ISA.
pub open spec fn isa_name(isa: TargetIsa) -> Seq<char> {
    match isa {
        TargetIsa::X86_64 => "x86_64"@,
        TargetIsa::Arm => "arm"@,
        TargetIsa::AArch64 => "aarch64"@,
        TargetIsa::Mips => "mips"@,
        TargetIsa::Ppc => "ppc"@,
        TargetIsa::Sparc => "sparc"@,
        TargetIsa::SuperH(SuperHFlavor::Sh2) => "sh2"@,
        TargetIsa::SuperH(SuperHFlavor::Sh4) => "sh4"@,
    }
}

/// All ISAs, each once, in their canonical order.
pub open spec fn canonical_isas() -> Seq<TargetIsa> {
    seq![
        TargetIsa::X86_64,
        TargetIsa::Arm,
        TargetIsa::AArch64,
        TargetIsa::Mips,
        TargetIsa::Ppc,
        TargetIsa::Sparc,
        TargetIsa::SuperH(SuperHFlavor::Sh2),
        TargetIsa::SuperH(SuperHFlavor::Sh4),
    ]
}

/// Unicode `White_Space` (what `char::is_whitespace` and `str::trim` remove).
pub open spec fn is_white_space(c: char) -> bool {
    let u = c as u32;
    ||| 0x09 <= u <= 0x0D
    ||| u == 0x20
    ||| u == 0x85
    ||| u == 0xA0
    ||| u == 0x1680
    ||| 0x2000 <= u <= 0x200A
    ||| u == 0x2028
    ||| u == 0x2029
    ||| u == 0x202F
    ||| u == 0x205F
    ||| u == 0x3000
}

/// `s` without its leading white space.
pub open spec fn trim_start(s: Seq<char>) -> Seq<char>
    decreases s.len(),
{
    if s.len() > 0 && is_white_space(s[0]) {
        trim_start(s.drop_first())
    } else {
        s
    }
}

/// `s` without its trailing white space.
pub open spec fn trim_end(s: Seq<char>) -> Seq<char>
    decreases s.len(),
{
    if s.len() > 0 && is_white_space(s.last()) {
        trim_end(s.drop_last())
    } else {
        s
    }
}

/// `s` without leading and trailing white space (`str::trim`).
pub open spec fn trim(s: Seq<char>) -> Seq<char> {
    trim_end(trim_start(s))
}

/// The ASCII lower case of a character (`char::to_ascii_lowercase`).
pub open spec fn ascii_lower(c: char) -> char {
    if 'A' <= c <= 'Z' {
        ((c as u32) + 32) as char
    } else {
        c
    }
}

/// The ASCII lower case of a text (`str::to_ascii_lowercase`).
pub open spec fn ascii_lowercase(s: Seq<char>) -> Seq<char> {
    s.map_values(|c: char| ascii_lower(c))
}

/// The key under which a name is looked up.
pub open spec fn lookup_key(s: Seq<char>) -> Seq<char> {
    ascii_lowercase(trim(s))
}

/// The ISA that a lookup key names, with all its aliases.
pub open spec fn isa_of_key(k: Seq<char>) -> Option<TargetIsa> {
    if k == "x86_64"@ || k == "x86-64"@ || k == "amd64"@ || k == "x64"@ {
        Some(TargetIsa::X86_64)
    } else if k == "arm"@ || k == "arm32"@ || k == "aarch32"@ {
        Some(TargetIsa::Arm)
    } else if k == "arm64"@ || k == "aarch64"@ {
        Some(TargetIsa::AArch64)
    } else if k == "mips"@ || k == "mips32"@ {
        Some(TargetIsa::Mips)
    } else if k == "ppc"@ || k == "powerpc"@ || k == "ppc32"@ {
        Some(TargetIsa::Ppc)
    } else if k == "sparc"@ || k == "sparc32"@ {
        Some(TargetIsa::Sparc)
    } else if k == "sh"@ || k == "superh"@ || k == "sh2"@ || k == "hitachi"@ {
        Some(TargetIsa::SuperH(SuperHFlavor::Sh2))
    } else if k == "sh4"@ {
        Some(TargetIsa::SuperH(SuperHFlavor::Sh4))
    } else {
        None
    }
}

/// What parsing `s` gives: the ISA its key names, or the key itself.
pub open spec fn parse_isa(s: Seq<char>) -> Result<TargetIsa, Seq<char>> {
    match isa_of_key(lookup_key(s)) {
        Some(isa) => Ok(isa),
        None => Err(lookup_key(s)),
    }
}

fn is_white_space_char(c: char) -> (b: bool)
    ensures
        b == is_white_space(c),
{
    let u = c as u32;
    (0x09 <= u && u <= 0x0D) || u == 0x20 || u == 0x85 || u == 0xA0 || u == 0x1680 || (0x2000
        <= u && u <= 0x200A) || u == 0x2028 || u == 0x2029 || u == 0x202F || u == 0x205F || u
        == 0x3000
}

fn ascii_lower_char(c: char) -> (l: char)
    ensures
        l == ascii_lower(c),
{
    if 'A' <= c && c <= 'Z' {
        (((c as u32) + 32) as u8) as char
    } else {
        c
    }
}

/// The lookup key of `s`: trimmed, then lower-cased.
fn lookup_key_of(s: &str) -> (k: String)
    ensures
        k@ == lookup_key(s@),
{
    let n = s.unicode_len();
    let mut start: usize = 0;
    assert(s@.subrange(0, n as int) =~= s@);
    while start < n && is_white_space_char(s.get_char(start))
        invariant
            n == s@.len(),
            start <= n,
            trim_start(s@) == trim_start(s@.subrange(start as int, n as int)),
        decreases n - start,
    {
        assert(s@.subrange(start as int, n as int).drop_first() =~= s@.subrange(
            start as int + 1,
            n as int,
        ));
        start = start + 1;
    }
    let ghost front = s@.subrange(start as int, n as int);
    assert(trim_start(s@) == front);
    let mut end: usize = n;
    while end > start && is_white_space_char(s.get_char(end - 1))
        invariant
            n == s@.len(),
            start <= end <= n,
            front == s@.subrange(start as int, n as int),
            trim_end(front) == trim_end(s@.subrange(start as int, end as int)),
        decreases end - start,
    {
        assert(s@.subrange(start as int, end as int).drop_last() =~= s@.subrange(
            start as int,
            end as int - 1,
        ));
        end = end - 1;
    }
    let ghost kept = s@.subrange(start as int, end as int);
    assert(trim(s@) == kept);
    let mut k = String::new();
    let mut j: usize = start;
    while j < end
        invariant
            n == s@.len(),
            start <= j <= end <= n,
            kept == s@.subrange(start as int, end as int),
            k@ == ascii_lowercase(s@.subrange(start as int, j as int)),
        decreases end - j,
    {
        let c = ascii_lower_char(s.get_char(j));
        push_char(&mut k, c);
        assert(ascii_lowercase(s@.subrange(start as int, j as int + 1)) =~= ascii_lowercase(
            s@.subrange(start as int, j as int),
        ).push(ascii_lower(s@[j as int])));
        j = j + 1;
    }
    assert(ascii_lowercase(kept) =~= k@);
    k
}

impl TargetIsa {
    /// Every ISA once, in canonical order.
    pub fn all_canonical() -> (isas: &'static [TargetIsa])
        ensures
            isas@ == canonical_isas(),
    {
        let isas: &'static [TargetIsa] = &[
            TargetIsa::X86_64,
            TargetIsa::Arm,
            TargetIsa::AArch64,
            TargetIsa::Mips,
            TargetIsa::Ppc,
            TargetIsa::Sparc,
            TargetIsa::SuperH(SuperHFlavor::Sh2),
            TargetIsa::SuperH(SuperHFlavor::Sh4),
        ];
        assert(isas@ =~= canonical_isas());
        isas
    }

    /// The canonical name.
    pub fn as_str(self) -> (s: &'static str)
        ensures
            s@ == isa_name(self),
    {
        match self {
            TargetIsa::X86_64 => "x86_64",
            TargetIsa::Arm => "arm",
            TargetIsa::AArch64 => "aarch64",
            TargetIsa::Mips => "mips",
            TargetIsa::Ppc => "ppc",
            TargetIsa::Sparc => "sparc",
            TargetIsa::SuperH(SuperHFlavor::Sh2) => "sh2",
            TargetIsa::SuperH(SuperHFlavor::Sh4) => "sh4",
        }
    }

    /// Parses an ISA name or alias; surrounding white space and ASCII case are ignored.
    pub fn parse(s: &str) -> (r: Result<TargetIsa, ParseTargetError>)
        ensures
            r matches Ok(isa) ==> parse_isa(s@) == Ok::<TargetIsa, Seq<char>>(isa),
            r matches Err(e) ==> parse_isa(s@) == Err::<TargetIsa, Seq<char>>(e.0@),
    {
        let key = lookup_key_of(s);
        if string_is(&key, "x86_64") || string_is(&key, "x86-64") || string_is(&key, "amd64") || string_is(
            &key,
            "x64",
        ) {
            Ok(TargetIsa::X86_64)
        } else if string_is(&key, "arm") || string_is(&key, "arm32") || string_is(&key, "aarch32") {
            Ok(TargetIsa::Arm)
        } else if string_is(&key, "arm64") || string_is(&key, "aarch64") {
            Ok(TargetIsa::AArch64)
        } else if string_is(&key, "mips") || string_is(&key, "mips32") {
            Ok(TargetIsa::Mips)
        } else if string_is(&key, "ppc") || string_is(&key, "powerpc") || string_is(&key, "ppc32") {
            Ok(TargetIsa::Ppc)
        } else if string_is(&key, "sparc") || string_is(&key, "sparc32") {
            Ok(TargetIsa::Sparc)
        } else if string_is(&key, "sh") || string_is(&key, "superh") || string_is(&key, "sh2") || string_is(
            &key,
            "hitachi",
        ) {
            Ok(TargetIsa::SuperH(SuperHFlavor::Sh2))
        } else if string_is(&key, "sh4") {
            Ok(TargetIsa::SuperH(SuperHFlavor::Sh4))
        } else {
            Err(ParseTargetError(key))
        }
    }
}


/// A name without white space and upper case letters is its own lookup key.
proof fn lemma_plain_name_is_key(s: Seq<char>)
    requires
        s.len() > 0,
        forall|i: int| 0 <= i < s.len() ==> !is_white_space(#[trigger] s[i]) && !('A' <= s[i] <= 'Z'),
    ensures
        lookup_key(s) == s,
{
    assert(trim_start(s) == s);
    assert(trim_end(s) == s);
    assert(ascii_lowercase(s) =~= s);
}

/// Parsing the canonical name of an ISA gives that ISA back.
pub proof fn law_canonical_name_parses_back(isa: TargetIsa)
    ensures
        parse_isa(isa_name(isa)) == Ok::<TargetIsa, Seq<char>>(isa),
{
    reveal_strlit("x86_64");
    reveal_strlit("x86-64");
    reveal_strlit("amd64");
    reveal_strlit("x64");
    reveal_strlit("arm");
    reveal_strlit("arm32");
    reveal_strlit("aarch32");
    reveal_strlit("arm64");
    reveal_strlit("aarch64");
    reveal_strlit("mips");
    reveal_strlit("mips32");
    reveal_strlit("ppc");
    reveal_strlit("powerpc");
    reveal_strlit("ppc32");
    reveal_strlit("sparc");
    reveal_strlit("sparc32");
    reveal_strlit("sh");
    reveal_strlit("superh");
    reveal_strlit("sh2");
    reveal_strlit("hitachi");
    reveal_strlit("sh4");
    lemma_canonical_name_plain(isa);
}

/// A canonical name is non-empty, has no white space and no upper case.
proof fn lemma_canonical_name_plain(isa: TargetIsa)
    ensures
        isa_name(isa).len() > 0,
        forall|i: int|
            0 <= i < isa_name(isa).len() ==> !is_white_space(#[trigger] isa_name(isa)[i]) && !('A'
                <= isa_name(isa)[i] <= 'Z'),
        lookup_key(isa_name(isa)) == isa_name(isa),
{
    reveal_strlit("x86_64");
    reveal_strlit("arm");
    reveal_strlit("aarch64");
    reveal_strlit("mips");
    reveal_strlit("ppc");
    reveal_strlit("sparc");
    reveal_strlit("sh2");
    reveal_strlit("sh4");
    let s = isa_name(isa);
    assert forall|i: int| 0 <= i < s.len() implies !is_white_space(#[trigger] s[i]) && !('A' <= s[i]
        <= 'Z') by {}
    lemma_plain_name_is_key(s);
}

/// The ASCII upper case of a character (`char::to_ascii_uppercase`).
pub open spec fn ascii_upper(c: char) -> char {
    if 'a' <= c <= 'z' {
        ((c as u32) - 32) as char
    } else {
        c
    }
}

/// The ASCII upper case of a text (`str::to_ascii_uppercase`).
pub open spec fn ascii_uppercase(s: Seq<char>) -> Seq<char> {
    s.map_values(|c: char| ascii_upper(c))
}

/// Whether every character of `s` is white space.
pub open spec fn all_white_space(s: Seq<char>) -> bool {
    forall|i: int| 0 <= i < s.len() ==> is_white_space(#[trigger] s[i])
}

proof fn lemma_trim_start_padding(pre: Seq<char>, t: Seq<char>)
    requires
        all_white_space(pre),
        t.len() > 0,
        !is_white_space(t[0]),
    ensures
        trim_start(pre + t) == t,
    decreases pre.len(),
{
    if pre.len() == 0 {
        assert(pre + t =~= t);
    } else {
        assert((pre + t)[0] == pre[0]);
        assert((pre + t).drop_first() =~= pre.drop_first() + t);
        lemma_trim_start_padding(pre.drop_first(), t);
    }
}

proof fn lemma_trim_end_padding(t: Seq<char>, post: Seq<char>)
    requires
        all_white_space(post),
        t.len() > 0,
        !is_white_space(t.last()),
    ensures
        trim_end(t + post) == t,
    decreases post.len(),
{
    if post.len() == 0 {
        assert(t + post =~= t);
    } else {
        assert((t + post).last() == post.last());
        assert((t + post).drop_last() =~= t + post.drop_last());
        lemma_trim_end_padding(t, post.drop_last());
    }
}

/// A canonical name in upper case, surrounded by any white space, still
/// parses to its ISA.
pub proof fn law_padded_upper_name_parses_back(isa: TargetIsa, pre: Seq<char>, post: Seq<char>)
    requires
        all_white_space(pre),
        all_white_space(post),
    ensures
        parse_isa(pre + ascii_uppercase(isa_name(isa)) + post) == Ok::<TargetIsa, Seq<char>>(isa),
{
    lemma_canonical_name_plain(isa);
    law_canonical_name_parses_back(isa);
    let name = isa_name(isa);
    let up = ascii_uppercase(name);
    assert(!is_white_space(up[0]));
    assert(!is_white_space(up.last()));
    assert(pre + up + post =~= pre + (up + post));
    assert((up + post)[0] == up[0]);
    lemma_trim_start_padding(pre, up + post);
    lemma_trim_end_padding(up, post);
    assert(trim(pre + up + post) == up);
    assert(ascii_lowercase(up) =~= name);
}

/// Distinct ISAs have distinct canonical names.
pub proof fn law_canonical_names_distinct(a: TargetIsa, b: TargetIsa)
    ensures
        isa_name(a) == isa_name(b) ==> a == b,
{
    law_canonical_name_parses_back(a);
    law_canonical_name_parses_back(b);
}

/// The canonical list names every ISA, and none twice.
pub proof fn law_canonical_list_complete(isa: TargetIsa)
    ensures
        canonical_isas().contains(isa),
        canonical_isas().no_duplicates(),
{
    let c = canonical_isas();
    match isa {
        TargetIsa::X86_64 => assert(c[0] == isa),
        TargetIsa::Arm => assert(c[1] == isa),
        TargetIsa::AArch64 => assert(c[2] == isa),
        TargetIsa::Mips => assert(c[3] == isa),
        TargetIsa::Ppc => assert(c[4] == isa),
        TargetIsa::Sparc => assert(c[5] == isa),
        TargetIsa::SuperH(SuperHFlavor::Sh2) => assert(c[6] == isa),
        TargetIsa::SuperH(SuperHFlavor::Sh4) => assert(c[7] == isa),
    }
}


/// A key without white space and upper case parses to what the table names.
proof fn lemma_plain_key_parses(k: Seq<char>)
    requires
        k.len() > 0,
        forall|i: int| 0 <= i < k.len() ==> !is_white_space(#[trigger] k[i]) && !('A' <= k[i] <= 'Z'),
    ensures
        parse_isa(k) == match isa_of_key(k) {
            Some(isa) => Ok::<TargetIsa, Seq<char>>(isa),
            None => Err(k),
        },
{
    lemma_plain_name_is_key(k);
}
/// The names that parse to `TargetIsa::X86_64`: `x86_64`, `x86-64`, `amd64`, `x64`.
pub proof fn law_aliases_of_x86_64()
    ensures
        parse_isa("x86_64"@) == Ok::<TargetIsa, Seq<char>>(TargetIsa::X86_64),
        parse_isa("x86-64"@) == Ok::<TargetIsa, Seq<char>>(TargetIsa::X86_64),
        parse_isa("amd64"@) == Ok::<TargetIsa, Seq<char>>(TargetIsa::X86_64),
        parse_isa("x64"@) == Ok::<TargetIsa, Seq<char>>(TargetIsa::X86_64),
{
    reveal_strlit("x86_64");
    reveal_strlit("x86-64");
    reveal_strlit("amd64");
    reveal_strlit("x64");
    reveal_strlit("arm");
    reveal_strlit("arm32");
    reveal_strlit("aarch32");
    reveal_strlit("arm64");
    reveal_strlit("aarch64");
    reveal_strlit("mips");
    reveal_strlit("mips32");
    reveal_strlit("ppc");
    reveal_strlit("powerpc");
    reveal_strlit("ppc32");
    reveal_strlit("sparc");
    reveal_strlit("sparc32");
    reveal_strlit("sh");
    reveal_strlit("superh");
    reveal_strlit("sh2");
    reveal_strlit("hitachi");
    reveal_strlit("sh4");
    assert forall|i: int| 0 <= i < "x86_64"@.len() implies !is_white_space(#[trigger] "x86_64"@[i])
        && !('A' <= "x86_64"@[i] <= 'Z') by {}
    lemma_plain_key_parses("x86_64"@);
    assert forall|i: int| 0 <= i < "x86-64"@.len() implies !is_white_space(#[trigger] "x86-64"@[i])
        && !('A' <= "x86-64"@[i] <= 'Z') by {}
    lemma_plain_key_parses("x86-64"@);
    assert forall|i: int| 0 <= i < "amd64"@.len() implies !is_white_space(#[trigger] "amd64"@[i])
        && !('A' <= "amd64"@[i] <= 'Z') by {}
    lemma_plain_key_parses("amd64"@);
    assert forall|i: int| 0 <= i < "x64"@.len() implies !is_white_space(#[trigger] "x64"@[i])
        && !('A' <= "x64"@[i] <= 'Z') by {}
    lemma_plain_key_parses("x64"@);
}

/// The names that parse to `TargetIsa::Arm`: `arm`, `arm32`, `aarch32`.
pub proof fn law_aliases_of_arm()
    ensures
        parse_isa("arm"@) == Ok::<TargetIsa, Seq<char>>(TargetIsa::Arm),
        parse_isa("arm32"@) == Ok::<TargetIsa, Seq<char>>(TargetIsa::Arm),
        parse_isa("aarch32"@) == Ok::<TargetIsa, Seq<char>>(TargetIsa::Arm),
{
    reveal_strlit("x86_64");
    reveal_strlit("x86-64");
    reveal_strlit("amd64");
    reveal_strlit("x64");
    reveal_strlit("arm");
    reveal_strlit("arm32");
    reveal_strlit("aarch32");
    reveal_strlit("arm64");
    reveal_strlit("aarch64");
    reveal_strlit("mips");
    reveal_strlit("mips32");
    reveal_strlit("ppc");
    reveal_strlit("powerpc");
    reveal_strlit("ppc32");
    reveal_strlit("sparc");
    reveal_strlit("sparc32");
    reveal_strlit("sh");
    reveal_strlit("superh");
    reveal_strlit("sh2");
    reveal_strlit("hitachi");
    reveal_strlit("sh4");
    assert forall|i: int| 0 <= i < "arm"@.len() implies !is_white_space(#[trigger] "arm"@[i])
        && !('A' <= "arm"@[i] <= 'Z') by {}
    lemma_plain_key_parses("arm"@);
    assert forall|i: int| 0 <= i < "arm32"@.len() implies !is_white_space(#[trigger] "arm32"@[i])
        && !('A' <= "arm32"@[i] <= 'Z') by {}
    lemma_plain_key_parses("arm32"@);
    assert forall|i: int| 0 <= i < "aarch32"@.len() implies !is_white_space(#[trigger] "aarch32"@[i])
        && !('A' <= "aarch32"@[i] <= 'Z') by {}
    lemma_plain_key_parses("aarch32"@);
}

/// The names that parse to `TargetIsa::AArch64`: `arm64`, `aarch64`.
pub proof fn law_aliases_of_aarch64()
    ensures
        parse_isa("arm64"@) == Ok::<TargetIsa, Seq<char>>(TargetIsa::AArch64),
        parse_isa("aarch64"@) == Ok::<TargetIsa, Seq<char>>(TargetIsa::AArch64),
{
    reveal_strlit("x86_64");
    reveal_strlit("x86-64");
    reveal_strlit("amd64");
    reveal_strlit("x64");
    reveal_strlit("arm");
    reveal_strlit("arm32");
    reveal_strlit("aarch32");
    reveal_strlit("arm64");
    reveal_strlit("aarch64");
    reveal_strlit("mips");
    reveal_strlit("mips32");
    reveal_strlit("ppc");
    reveal_strlit("powerpc");
    reveal_strlit("ppc32");
    reveal_strlit("sparc");
    reveal_strlit("sparc32");
    reveal_strlit("sh");
    reveal_strlit("superh");
    reveal_strlit("sh2");
    reveal_strlit("hitachi");
    reveal_strlit("sh4");
    assert forall|i: int| 0 <= i < "arm64"@.len() implies !is_white_space(#[trigger] "arm64"@[i])
        && !('A' <= "arm64"@[i] <= 'Z') by {}
    assert("arm64"@[3] != "arm32"@[3]);
    assert("arm64"@ != "arm32"@);
    assert("arm64"@[1] != "amd64"@[1]);
    assert("arm64"@ != "amd64"@);
    assert("arm64"@ != "arm"@);
    assert("arm64"@ != "x86_64"@);
    assert("arm64"@ != "x86-64"@);
    assert("arm64"@ != "x64"@);
    assert("arm64"@ != "aarch32"@);
    lemma_plain_key_parses("arm64"@);
    assert forall|i: int| 0 <= i < "aarch64"@.len() implies !is_white_space(#[trigger] "aarch64"@[i])
        && !('A' <= "aarch64"@[i] <= 'Z') by {}
    lemma_plain_key_parses("aarch64"@);
}

/// The names that parse to `TargetIsa::Mips`: `mips`, `mips32`.
pub proof fn law_aliases_of_mips()
    ensures
        parse_isa("mips"@) == Ok::<TargetIsa, Seq<char>>(TargetIsa::Mips),
        parse_isa("mips32"@) == Ok::<TargetIsa, Seq<char>>(TargetIsa::Mips),
{
    reveal_strlit("x86_64");
    reveal_strlit("x86-64");
    reveal_strlit("amd64");
    reveal_strlit("x64");
    reveal_strlit("arm");
    reveal_strlit("arm32");
    reveal_strlit("aarch32");
    reveal_strlit("arm64");
    reveal_strlit("aarch64");
    reveal_strlit("mips");
    reveal_strlit("mips32");
    reveal_strlit("ppc");
    reveal_strlit("powerpc");
    reveal_strlit("ppc32");
    reveal_strlit("sparc");
    reveal_strlit("sparc32");
    reveal_strlit("sh");
    reveal_strlit("superh");
    reveal_strlit("sh2");
    reveal_strlit("hitachi");
    reveal_strlit("sh4");
    assert forall|i: int| 0 <= i < "mips"@.len() implies !is_white_space(#[trigger] "mips"@[i])
        && !('A' <= "mips"@[i] <= 'Z') by {}
    lemma_plain_key_parses("mips"@);
    assert forall|i: int| 0 <= i < "mips32"@.len() implies !is_white_space(#[trigger] "mips32"@[i])
        && !('A' <= "mips32"@[i] <= 'Z') by {}
    lemma_plain_key_parses("mips32"@);
}

/// The names that parse to `TargetIsa::Ppc`: `ppc`, `powerpc`, `ppc32`.
pub proof fn law_aliases_of_ppc()
    ensures
        parse_isa("ppc"@) == Ok::<TargetIsa, Seq<char>>(TargetIsa::Ppc),
        parse_isa("powerpc"@) == Ok::<TargetIsa, Seq<char>>(TargetIsa::Ppc),
        parse_isa("ppc32"@) == Ok::<TargetIsa, Seq<char>>(TargetIsa::Ppc),
{
    reveal_strlit("x86_64");
    reveal_strlit("x86-64");
    reveal_strlit("amd64");
    reveal_strlit("x64");
    reveal_strlit("arm");
    reveal_strlit("arm32");
    reveal_strlit("aarch32");
    reveal_strlit("arm64");
    reveal_strlit("aarch64");
    reveal_strlit("mips");
    reveal_strlit("mips32");
    reveal_strlit("ppc");
    reveal_strlit("powerpc");
    reveal_strlit("ppc32");
    reveal_strlit("sparc");
    reveal_strlit("sparc32");
    reveal_strlit("sh");
    reveal_strlit("superh");
    reveal_strlit("sh2");
    reveal_strlit("hitachi");
    reveal_strlit("sh4");
    assert forall|i: int| 0 <= i < "ppc"@.len() implies !is_white_space(#[trigger] "ppc"@[i])
        && !('A' <= "ppc"@[i] <= 'Z') by {}
    lemma_plain_key_parses("ppc"@);
    assert forall|i: int| 0 <= i < "powerpc"@.len() implies !is_white_space(#[trigger] "powerpc"@[i])
        && !('A' <= "powerpc"@[i] <= 'Z') by {}
    lemma_plain_key_parses("powerpc"@);
    assert forall|i: int| 0 <= i < "ppc32"@.len() implies !is_white_space(#[trigger] "ppc32"@[i])
        && !('A' <= "ppc32"@[i] <= 'Z') by {}
    lemma_plain_key_parses("ppc32"@);
}

/// The names that parse to `TargetIsa::Sparc`: `sparc`, `sparc32`.
pub proof fn law_aliases_of_sparc()
    ensures
        parse_isa("sparc"@) == Ok::<TargetIsa, Seq<char>>(TargetIsa::Sparc),
        parse_isa("sparc32"@) == Ok::<TargetIsa, Seq<char>>(TargetIsa::Sparc),
{
    reveal_strlit("x86_64");
    reveal_strlit("x86-64");
    reveal_strlit("amd64");
    reveal_strlit("x64");
    reveal_strlit("arm");
    reveal_strlit("arm32");
    reveal_strlit("aarch32");
    reveal_strlit("arm64");
    reveal_strlit("aarch64");
    reveal_strlit("mips");
    reveal_strlit("mips32");
    reveal_strlit("ppc");
    reveal_strlit("powerpc");
    reveal_strlit("ppc32");
    reveal_strlit("sparc");
    reveal_strlit("sparc32");
    reveal_strlit("sh");
    reveal_strlit("superh");
    reveal_strlit("sh2");
    reveal_strlit("hitachi");
    reveal_strlit("sh4");
    assert forall|i: int| 0 <= i < "sparc"@.len() implies !is_white_space(#[trigger] "sparc"@[i])
        && !('A' <= "sparc"@[i] <= 'Z') by {}
    lemma_plain_key_parses("sparc"@);
    assert forall|i: int| 0 <= i < "sparc32"@.len() implies !is_white_space(#[trigger] "sparc32"@[i])
        && !('A' <= "sparc32"@[i] <= 'Z') by {}
    lemma_plain_key_parses("sparc32"@);
}

/// The names that parse to `TargetIsa::SuperH(SuperHFlavor::Sh2)`: `sh`, `superh`, `sh2`, `hitachi`.
pub proof fn law_aliases_of_sh2()
    ensures
        parse_isa("sh"@) == Ok::<TargetIsa, Seq<char>>(TargetIsa::SuperH(SuperHFlavor::Sh2)),
        parse_isa("superh"@) == Ok::<TargetIsa, Seq<char>>(TargetIsa::SuperH(SuperHFlavor::Sh2)),
        parse_isa("sh2"@) == Ok::<TargetIsa, Seq<char>>(TargetIsa::SuperH(SuperHFlavor::Sh2)),
        parse_isa("hitachi"@) == Ok::<TargetIsa, Seq<char>>(TargetIsa::SuperH(SuperHFlavor::Sh2)),
{
    reveal_strlit("x86_64");
    reveal_strlit("x86-64");
    reveal_strlit("amd64");
    reveal_strlit("x64");
    reveal_strlit("arm");
    reveal_strlit("arm32");
    reveal_strlit("aarch32");
    reveal_strlit("arm64");
    reveal_strlit("aarch64");
    reveal_strlit("mips");
    reveal_strlit("mips32");
    reveal_strlit("ppc");
    reveal_strlit("powerpc");
    reveal_strlit("ppc32");
    reveal_strlit("sparc");
    reveal_strlit("sparc32");
    reveal_strlit("sh");
    reveal_strlit("superh");
    reveal_strlit("sh2");
    reveal_strlit("hitachi");
    reveal_strlit("sh4");
    assert forall|i: int| 0 <= i < "sh"@.len() implies !is_white_space(#[trigger] "sh"@[i])
        && !('A' <= "sh"@[i] <= 'Z') by {}
    lemma_plain_key_parses("sh"@);
    assert forall|i: int| 0 <= i < "superh"@.len() implies !is_white_space(#[trigger] "superh"@[i])
        && !('A' <= "superh"@[i] <= 'Z') by {}
    lemma_plain_key_parses("superh"@);
    assert forall|i: int| 0 <= i < "sh2"@.len() implies !is_white_space(#[trigger] "sh2"@[i])
        && !('A' <= "sh2"@[i] <= 'Z') by {}
    lemma_plain_key_parses("sh2"@);
    assert forall|i: int| 0 <= i < "hitachi"@.len() implies !is_white_space(#[trigger] "hitachi"@[i])
        && !('A' <= "hitachi"@[i] <= 'Z') by {}
    lemma_plain_key_parses("hitachi"@);
}

/// The names that parse to `TargetIsa::SuperH(SuperHFlavor::Sh4)`: `sh4`.
pub proof fn law_aliases_of_sh4()
    ensures
        parse_isa("sh4"@) == Ok::<TargetIsa, Seq<char>>(TargetIsa::SuperH(SuperHFlavor::Sh4)),
{
    reveal_strlit("x86_64");
    reveal_strlit("x86-64");
    reveal_strlit("amd64");
    reveal_strlit("x64");
    reveal_strlit("arm");
    reveal_strlit("arm32");
    reveal_strlit("aarch32");
    reveal_strlit("arm64");
    reveal_strlit("aarch64");
    reveal_strlit("mips");
    reveal_strlit("mips32");
    reveal_strlit("ppc");
    reveal_strlit("powerpc");
    reveal_strlit("ppc32");
    reveal_strlit("sparc");
    reveal_strlit("sparc32");
    reveal_strlit("sh");
    reveal_strlit("superh");
    reveal_strlit("sh2");
    reveal_strlit("hitachi");
    reveal_strlit("sh4");
    assert forall|i: int| 0 <= i < "sh4"@.len() implies !is_white_space(#[trigger] "sh4"@[i])
        && !('A' <= "sh4"@[i] <= 'Z') by {}
    lemma_plain_key_parses("sh4"@);
}

/// A name whose key is none of the listed names and aliases is refused, and
/// the error holds that key.
pub proof fn law_unlisted_key_is_refused(k: Seq<char>)
    requires
        k.len() > 0,
        forall|i: int| 0 <= i < k.len() ==> !is_white_space(#[trigger] k[i]) && !('A' <= k[i] <= 'Z'),
        k != "x86_64"@,
        k != "x86-64"@,
        k != "amd64"@,
        k != "x64"@,
        k != "arm"@,
        k != "arm32"@,
        k != "aarch32"@,
        k != "arm64"@,
        k != "aarch64"@,
        k != "mips"@,
        k != "mips32"@,
        k != "ppc"@,
        k != "powerpc"@,
        k != "ppc32"@,
        k != "sparc"@,
        k != "sparc32"@,
        k != "sh"@,
        k != "superh"@,
        k != "sh2"@,
        k != "hitachi"@,
        k != "sh4"@,
    ensures
        parse_isa(k) == Err::<TargetIsa, Seq<char>>(k),
{
    lemma_plain_key_parses(k);
}

impl core::str::FromStr for TargetIsa {
    type Err = ParseTargetError;

    fn from_str(s: &str) -> (r: Result<TargetIsa, ParseTargetError>)
        ensures
            r matches Ok(isa) ==> parse_isa(s@) == Ok::<TargetIsa, Seq<char>>(isa),
            r matches Err(e) ==> parse_isa(s@) == Err::<TargetIsa, Seq<char>>(e.0@),
    {
        TargetIsa::parse(s)
    }
}

} // verus!
