//! The `widget.toml` schema and the invariants a manifest must satisfy.

use vstd::prelude::*;

use crate::capability::Capability;
use crate::text::{contains_seq, contains_str, decimal, push_decimal};

verus! {

/// Current package manifest schema.
pub const PACKAGE_SCHEMA: u32 = 1;

#[verifier::external_type_specification]
#[verifier::external_body]
pub struct ExVersion(semver::Version);

/// `semver::Version::clone` copies the version: the result is the same value.
pub assume_specification[ <semver::Version as Clone>::clone ](version: &semver::Version) -> (res:
    semver::Version)
    ensures
        res == *version,
;

/// Logical widget size in compositor-independent pixels.
#[derive(Debug, Clone, Copy, PartialEq, Eq, Structural)]
pub struct Size {
    pub width: u32,
    pub height: u32,
}

/// Placement families supported by a package.
#[derive(Debug, Clone, Copy, PartialEq, Eq, Structural)]
pub enum PlacementKind {
    Desktop,
    Edge,
}

/// How often the host should wake a declarative package.
#[derive(Debug, Clone, Copy, PartialEq, Eq, Structural)]
pub enum RefreshPolicy {
    OnChange,
    Interval { milliseconds: u64 },
}

impl Default for RefreshPolicy {
    fn default() -> (res: RefreshPolicy)
        ensures
            res == RefreshPolicy::OnChange,
    {
        RefreshPolicy::OnChange
    }
}

/// Public `widget.toml` schema.
#[derive(Debug, Clone, PartialEq, Eq)]
pub struct Manifest {
    pub schema: u32,
    pub id: String,
    pub version: semver::Version,
    pub name: String,
    pub description: String,
    pub entry: String,
    pub default_size: Size,
    pub min_size: Size,
    pub max_size: Size,
    pub placements: Vec<PlacementKind>,
    pub refresh: RefreshPolicy,
    pub capabilities: Vec<Capability>,
    pub wasm: Option<WasmManifest>,
}

/// Optional Extism module description.
#[derive(Debug, Clone, PartialEq, Eq)]
pub struct WasmManifest {
    pub module: String,
    pub memory_pages: u32,
    pub fuel: u64,
    pub timeout_ms: u64,
}

/// Schema assumed when `widget.toml` names none.
pub fn default_schema() -> (res: u32)
    ensures
        res == PACKAGE_SCHEMA,
{
    PACKAGE_SCHEMA
}

/// Entry document assumed when `widget.toml` names none.
pub fn default_entry() -> (res: String)
    ensures
        res@ == "index.html"@,
{
    String::from_str("index.html")
}

/// Placements assumed when `widget.toml` names none: the desktop only.
pub fn default_placements() -> (res: Vec<PlacementKind>)
    ensures
        res@ == seq![PlacementKind::Desktop],
{
    let mut v = Vec::new();
    v.push(PlacementKind::Desktop);
    v
}

/// Logic module assumed when the `[wasm]` table names none.
pub fn default_wasm_entry() -> (res: String)
    ensures
        res@ == "logic.wasm"@,
{
    String::from_str("logic.wasm")
}

/// Memory ceiling, in 64 KiB pages, assumed when the `[wasm]` table names none.
pub fn default_memory_pages() -> (res: u32)
    ensures
        res == 256,
{
    256
}

/// Fuel ceiling assumed when the `[wasm]` table names none.
pub fn default_fuel() -> (res: u64)
    ensures
        res == 5_000_000,
{
    5_000_000
}

/// Per-call timeout assumed when the `[wasm]` table names none.
pub fn default_timeout_ms() -> (res: u64)
    ensures
        res == 50,
{
    50
}

/// Splits `s` at every `sep`, as `str::split` does: `k` separators give `k + 1` pieces.
pub open spec fn split_on(s: Seq<char>, sep: char) -> Seq<Seq<char>>
    decreases s.len(),
{
    if s.len() == 0 {
        seq![Seq::<char>::empty()]
    } else {
        let init = split_on(s.drop_last(), sep);
        if s.last() == sep {
            init.push(Seq::<char>::empty())
        } else {
            init.update(init.len() - 1, init.last().push(s.last()))
        }
    }
}

/// `split_on` always yields at least one piece.
pub proof fn lemma_split_nonempty(s: Seq<char>, sep: char)
    ensures
        split_on(s, sep).len() >= 1,
    decreases s.len(),
{
    if s.len() > 0 {
        lemma_split_nonempty(s.drop_last(), sep);
    }
}

/// ASCII letter or digit.
pub open spec fn is_ascii_alphanumeric(c: char) -> bool {
    ('0' <= c && c <= '9') || ('a' <= c && c <= 'z') || ('A' <= c && c <= 'Z')
}

/// Character allowed inside one segment of a reverse-DNS identifier.
pub open spec fn is_id_char(c: char) -> bool {
    is_ascii_alphanumeric(c) || c == '-'
}

/// A reverse-DNS identifier: at least three dot-separated segments, each non-empty and
/// made of ASCII letters, digits and hyphens.
pub open spec fn is_reverse_dns(id: Seq<char>) -> bool {
    let segments = split_on(id, '.');
    &&& segments.len() >= 3
    &&& forall|i: int| 0 <= i < segments.len() ==> #[trigger] segments[i].len() > 0
    &&& forall|i: int, k: int|
        0 <= i < segments.len() && 0 <= k < segments[i].len() ==> is_id_char(
            #[trigger] segments[i][k],
        )
}

/// Unicode `White_Space`, the property `char::is_whitespace` and `str::trim` use.
pub open spec fn is_unicode_whitespace(c: char) -> bool {
    let u = c as u32;
    ||| (0x09 <= u && u <= 0x0D)
    ||| u == 0x20
    ||| u == 0x85
    ||| u == 0xA0
    ||| u == 0x1680
    ||| (0x2000 <= u && u <= 0x200A)
    ||| u == 0x2028
    ||| u == 0x2029
    ||| u == 0x202F
    ||| u == 0x205F
    ||| u == 0x3000
}

/// Nothing is left of `s` once surrounding whitespace is trimmed.
pub open spec fn is_blank(s: Seq<char>) -> bool {
    forall|i: int| 0 <= i < s.len() ==> is_unicode_whitespace(#[trigger] s[i])
}

/// A path that neither starts at the root nor contains `..`.
pub open spec fn is_package_relative(path: Seq<char>) -> bool {
    !(path.len() > 0 && path[0] == '/') && !contains_seq(path, seq!['.', '.'])
}

/// The first problem with a size range, if any.
pub open spec fn size_range_problem(min: Size, default: Size, max: Size) -> Option<Seq<char>> {
    if min.width == 0 || min.height == 0 {
        Some("minimum size must be non-zero"@)
    } else if min.width > default.width || min.height > default.height || default.width
        > max.width || default.height > max.height {
        Some("size must satisfy min <= default <= max"@)
    } else {
        None
    }
}

/// The first problem with an Extism module description, if any.
pub open spec fn wasm_problem(wasm: WasmManifest) -> Option<Seq<char>> {
    if !is_package_relative(wasm.module@) {
        Some("WASM module must be a package-relative path"@)
    } else if !(1 <= wasm.memory_pages && wasm.memory_pages <= 1024) {
        Some("WASM memory_pages must be between 1 and 1024"@)
    } else if !(10_000 <= wasm.fuel && wasm.fuel <= 100_000_000) {
        Some("WASM fuel must be between 10,000 and 100,000,000"@)
    } else if !(1 <= wasm.timeout_ms && wasm.timeout_ms <= 1_000) {
        Some("WASM timeout_ms must be between 1 and 1000"@)
    } else {
        None
    }
}

/// The message of the first schema invariant `m` breaks, checked in the order
/// schema, id, name, entry, sizes, placements, refresh interval, logic module;
/// `None` when it breaks none.
pub open spec fn manifest_problem(m: Manifest) -> Option<Seq<char>> {
    if m.schema != PACKAGE_SCHEMA {
        Some("unsupported schema "@ + decimal(m.schema as nat) + ", expected "@ + decimal(
            PACKAGE_SCHEMA as nat,
        ))
    } else if !is_reverse_dns(m.id@) {
        Some("id must be a reverse-DNS identifier"@)
    } else if is_blank(m.name@) {
        Some("name must not be empty"@)
    } else if !is_package_relative(m.entry@) {
        Some("entry must be a package-relative path"@)
    } else if size_range_problem(m.min_size, m.default_size, m.max_size) is Some {
        size_range_problem(m.min_size, m.default_size, m.max_size)
    } else if m.placements@.len() == 0 {
        Some("at least one placement is required"@)
    } else if m.refresh matches RefreshPolicy::Interval { milliseconds } && milliseconds < 250 {
        Some("refresh intervals below 250 ms are not allowed"@)
    } else if m.wasm matches Some(w) && wasm_problem(w) is Some {
        wasm_problem(m.wasm->0)
    } else {
        None
    }
}

fn is_ascii_alphanumeric_char(c: char) -> (res: bool)
    ensures
        res == is_ascii_alphanumeric(c),
{
    ('0' <= c && c <= '9') || ('a' <= c && c <= 'z') || ('A' <= c && c <= 'Z')
}

fn is_whitespace_char(c: char) -> (res: bool)
    ensures
        res == is_unicode_whitespace(c),
{
    let u = c as u32;
    (0x09 <= u && u <= 0x0D) || u == 0x20 || u == 0x85 || u == 0xA0 || u == 0x1680 || (0x2000
        <= u && u <= 0x200A) || u == 0x2028 || u == 0x2029 || u == 0x202F || u == 0x205F || u
        == 0x3000
}

/// Whether `id` is a reverse-DNS identifier.
pub fn is_reverse_dns_id(id: &str) -> (res: bool)
    ensures
        res == is_reverse_dns(id@),
{
    let ghost s = id@;
    let mut count: usize = 1;
    let mut current_nonempty = false;
    let mut closed_nonempty = true;
    let mut chars_ok = true;
    proof {
        assert(s.take(0) =~= Seq::<char>::empty());
    }
    for c in it: id.chars()
        invariant
            it.seq() == s,
            split_on(s.take(it.index() as int), '.').len() >= 1,
            count as int == if split_on(s.take(it.index() as int), '.').len() < 3 {
                split_on(s.take(it.index() as int), '.').len() as int
            } else {
                3
            },
            current_nonempty == (split_on(s.take(it.index() as int), '.').last().len() > 0),
            closed_nonempty == (forall|i: int|
                0 <= i < split_on(s.take(it.index() as int), '.').len() - 1
                    ==> #[trigger] split_on(s.take(it.index() as int), '.')[i].len() > 0),
            chars_ok == (forall|i: int, k: int|
                0 <= i < split_on(s.take(it.index() as int), '.').len() && 0 <= k < split_on(
                    s.take(it.index() as int),
                    '.',
                )[i].len() ==> is_id_char(
                    #[trigger] split_on(s.take(it.index() as int), '.')[i][k],
                )),
            it.index() <= s.len(),
    {
        let ghost i = it.index() as int;
        let ghost prev = split_on(s.take(i), '.');
        let ghost next_text = s.take(i + 1);
        proof {
            assert(next_text.drop_last() =~= s.take(i));
            assert(next_text.last() == c);
        }
        let ghost next = split_on(next_text, '.');
        if c == '.' {
            proof {
                assert(next == prev.push(Seq::<char>::empty()));
                if closed_nonempty && current_nonempty {
                    assert forall|a: int| 0 <= a < next.len() - 1 implies #[trigger] next[a].len()
                        > 0 by {
                        if a < prev.len() - 1 {
                            assert(next[a] == prev[a]);
                        } else {
                            assert(next[a] == prev.last());
                        }
                    }
                } else if !closed_nonempty {
                    let a = choose|a: int| 0 <= a < prev.len() - 1 && !(#[trigger] prev[a].len() > 0);
                    assert(next[a] == prev[a]);
                } else {
                    assert(next[prev.len() - 1] == prev.last());
                }
                assert(chars_ok == (forall|a: int, k: int|
                    0 <= a < next.len() && 0 <= k < next[a].len() ==> is_id_char(
                        #[trigger] next[a][k],
                    ))) by {
                    if chars_ok {
                        assert forall|a: int, k: int|
                            0 <= a < next.len() && 0 <= k < next[a].len() implies is_id_char(
                            #[trigger] next[a][k],
                        ) by {
                            assert(a < prev.len());
                            assert(next[a] == prev[a]);
                        }
                    } else {
                        let (a, k) = choose|a: int, k: int|
                            0 <= a < prev.len() && 0 <= k < prev[a].len() && !is_id_char(
                                #[trigger] prev[a][k],
                            );
                        assert(next[a] == prev[a]);
                    }
                }
            }
            closed_nonempty = closed_nonempty && current_nonempty;
            if count < 3 {
                count = count + 1;
            }
            current_nonempty = false;
        } else {
            let ok = is_ascii_alphanumeric_char(c) || c == '-';
            proof {
                let last = prev.len() - 1;
                assert(next == prev.update(last, prev.last().push(c)));
                assert(next.len() == prev.len());
                if closed_nonempty {
                    assert forall|a: int| 0 <= a < next.len() - 1 implies #[trigger] next[a].len()
                        > 0 by {
                        assert(next[a] == prev[a]);
                    }
                } else {
                    let a = choose|a: int| 0 <= a < prev.len() - 1 && !(#[trigger] prev[a].len() > 0);
                    assert(next[a] == prev[a]);
                }
                assert(next.last() == prev.last().push(c));
                if chars_ok && ok {
                    assert forall|a: int, k: int|
                        0 <= a < next.len() && 0 <= k < next[a].len() implies is_id_char(
                        #[trigger] next[a][k],
                    ) by {
                        if a < last {
                            assert(next[a] == prev[a]);
                        } else {
                            assert(next[a] == prev.last().push(c));
                            if k < prev.last().len() {
                                assert(next[a][k] == prev[last][k]);
                            }
                        }
                    }
                } else if !chars_ok {
                    let (a, k) = choose|a: int, k: int|
                        0 <= a < prev.len() && 0 <= k < prev[a].len() && !is_id_char(
                            #[trigger] prev[a][k],
                        );
                    if a < last {
                        assert(next[a] == prev[a]);
                    } else {
                        assert(next[a][k] == prev[a][k]);
                    }
                } else {
                    assert(!is_id_char(next[last][prev.last().len() as int]));
                }
            }
            chars_ok = chars_ok && ok;
            current_nonempty = true;
        }
    }
    proof {
        assert(s.take(s.len() as int) =~= s);
    }
    let ghost segs = split_on(s, '.');
    let res = count >= 3 && closed_nonempty && current_nonempty && chars_ok;
    proof {
        if res {
            assert forall|i: int| 0 <= i < segs.len() implies #[trigger] segs[i].len() > 0 by {
                if i < segs.len() - 1 {
                } else {
                    assert(segs[i] == segs.last());
                }
            }
        } else if count >= 3 && closed_nonempty && chars_ok {
            assert(!(segs[segs.len() - 1].len() > 0));
        }
    }
    res
}

/// Whether `s` holds nothing but whitespace.
pub fn is_blank_str(s: &str) -> (res: bool)
    ensures
        res == is_blank(s@),
{
    for c in it: s.chars()
        invariant
            it.seq() == s@,
            forall|i: int| 0 <= i < it.index() ==> is_unicode_whitespace(#[trigger] s@[i]),
    {
        if !is_whitespace_char(c) {
            assert(s@[it.index() as int] == c);
            return false;
        }
    }
    true
}

/// Whether `path` is package-relative.
pub fn is_package_relative_path(path: &str) -> (res: bool)
    ensures
        res == is_package_relative(path@),
{
    let n = path.unicode_len();
    if n > 0 && path.get_char(0) == '/' {
        return false;
    }
    let dots = "..";
    proof {
        reveal_strlit("..");
        assert(dots@ =~= seq!['.', '.']);
    }
    !contains_str(path, dots)
}

/// Checks a minimum, default and maximum size.
///
/// # Errors
///
/// Returns a message when the minimum is zero in either dimension, or when the sizes do
/// not satisfy `min <= default <= max` in both dimensions.
pub fn validate_size_range(min: Size, default: Size, max: Size) -> (res: Result<(), String>)
    ensures
        res is Ok <==> size_range_problem(min, default, max) is None,
        res matches Err(message) ==> size_range_problem(min, default, max) == Some(message@),
        res is Ok <==> (0 < min.width && 0 < min.height && min.width <= default.width
            && default.width <= max.width && min.height <= default.height && default.height
            <= max.height),
{
    if min.width == 0 || min.height == 0 {
        return Err(String::from_str("minimum size must be non-zero"));
    }
    if min.width > default.width || min.height > default.height || default.width > max.width
        || default.height > max.height {
        return Err(String::from_str("size must satisfy min <= default <= max"));
    }
    Ok(())
}

/// Checks that `id` is a reverse-DNS identifier.
///
/// # Errors
///
/// Returns a message when it is not.
pub fn validate_id(id: &str) -> (res: Result<(), String>)
    ensures
        res is Ok <==> is_reverse_dns(id@),
        res matches Err(message) ==> message@ == "id must be a reverse-DNS identifier"@,
{
    if !is_reverse_dns_id(id) {
        return Err(String::from_str("id must be a reverse-DNS identifier"));
    }
    Ok(())
}

impl Manifest {
    /// Validates invariants that do not require reading package files.
    ///
    /// # Errors
    ///
    /// Returns a human-readable validation message when an identifier, path, size,
    /// refresh interval, or WASM resource limit is outside the v1 schema.
    pub fn validate(&self) -> (res: Result<(), String>)
        ensures
            res is Ok <==> manifest_problem(*self) is None,
            res matches Err(message) ==> manifest_problem(*self) == Some(message@),
            res is Ok ==> 0 < self.min_size.width && 0 < self.min_size.height
                && self.min_size.width <= self.default_size.width && self.default_size.width
                <= self.max_size.width && self.min_size.height <= self.default_size.height
                && self.default_size.height <= self.max_size.height,
    {
        if self.schema != PACKAGE_SCHEMA {
            let mut message = String::from_str("unsupported schema ");
            push_decimal(&mut message, self.schema as u64);
            message.append(", expected ");
            push_decimal(&mut message, PACKAGE_SCHEMA as u64);
            return Err(message);
        }
        validate_id(self.id.as_str())?;
        if is_blank_str(self.name.as_str()) {
            return Err(String::from_str("name must not be empty"));
        }
        if !is_package_relative_path(self.entry.as_str()) {
            return Err(String::from_str("entry must be a package-relative path"));
        }
        validate_size_range(self.min_size, self.default_size, self.max_size)?;
        if self.placements.len() == 0 {
            return Err(String::from_str("at least one placement is required"));
        }
        if let RefreshPolicy::Interval { milliseconds } = self.refresh {
            if milliseconds < 250 {
                return Err(String::from_str("refresh intervals below 250 ms are not allowed"));
            }
        }
        if let Some(wasm) = &self.wasm {
            if !is_package_relative_path(wasm.module.as_str()) {
                return Err(String::from_str("WASM module must be a package-relative path"));
            }
            if !(1 <= wasm.memory_pages && wasm.memory_pages <= 1024) {
                return Err(String::from_str("WASM memory_pages must be between 1 and 1024"));
            }
            if !(10_000 <= wasm.fuel && wasm.fuel <= 100_000_000) {
                return Err(String::from_str("WASM fuel must be between 10,000 and 100,000,000"));
            }
            if !(1 <= wasm.timeout_ms && wasm.timeout_ms <= 1_000) {
                return Err(String::from_str("WASM timeout_ms must be between 1 and 1000"));
            }
        }
        Ok(())
    }
}

/// A size range is accepted exactly when the minimum is non-zero in both dimensions
/// and `min <= default <= max` holds for the widths and for the heights; a non-zero
/// minimum that breaks the ordering in either dimension is refused with the ordering
/// message.
pub proof fn lemma_size_range_accepts_exactly_ordered_sizes(min: Size, default: Size, max: Size)
    ensures
        size_range_problem(min, default, max) is None <==> (0 < min.width && 0 < min.height
            && min.width <= default.width && default.width <= max.width && min.height
            <= default.height && default.height <= max.height),
        (0 < min.width && 0 < min.height && !(min.width <= default.width && default.width
            <= max.width && min.height <= default.height && default.height <= max.height))
            ==> size_range_problem(min, default, max) == Some(
            "size must satisfy min <= default <= max"@,
        ),
{
}

/// A manifest that passes validation has a non-zero minimum size and its sizes ordered
/// `min <= default <= max` in both dimensions.
pub proof fn lemma_valid_manifest_sizes_are_ordered(m: Manifest)
    requires
        manifest_problem(m) is None,
    ensures
        0 < m.min_size.width && 0 < m.min_size.height,
        m.min_size.width <= m.default_size.width <= m.max_size.width,
        m.min_size.height <= m.default_size.height <= m.max_size.height,
{
}

} // verus!
