//! Compression levels for package archives: the zstd level each setting
//! uses, its description, its estimated speed and size, and its parsing.
use crate::artifact_qa::patchers::python_bytecode_cleanup::ascii_lower_char;
use crate::text::{concat, decimal, owned, parse_u8, parse_u8_spec, to_chars, u64_to_string};
use vstd::prelude::*;

verus! {

/// Compression levels with clear speed vs size tradeoffs
#[derive(Clone, Copy, Debug, PartialEq, Eq, Structural)]
pub enum CompressionLevel {
    /// Fast compression: quick builds, larger files
    Fast,
    /// Balanced compression: good compression, reasonable speed
    Balanced,
    /// Maximum compression: best compression, slower builds (the default)
    Maximum,
    /// A zstd level given directly (clamped to 1..=22 where used)
    Custom(u8),
}

impl Default for CompressionLevel {
    fn default() -> (r: Self)
        ensures
            r == CompressionLevel::Maximum,
    {
        CompressionLevel::Maximum
    }
}

/// The zstd level a setting compresses at.
pub open spec fn zstd_level_of(l: CompressionLevel) -> i32 {
    match l {
        CompressionLevel::Fast => 3,
        CompressionLevel::Balanced => 9,
        CompressionLevel::Maximum => 19,
        CompressionLevel::Custom(n) => if n < 1 {
            1
        } else if n > 22 {
            22
        } else {
            n as i32
        },
    }
}

/// The description of a setting.
pub open spec fn description_of(l: CompressionLevel) -> Seq<char> {
    match l {
        CompressionLevel::Fast => "Fast compression - Quick builds, larger files (2-5x faster)"@,
        CompressionLevel::Balanced => "Balanced compression - Good speed/size tradeoff"@,
        CompressionLevel::Maximum => "Maximum compression - Best compression, slower builds (default)"@,
        CompressionLevel::Custom(n) => if 1 <= n <= 3 {
            "Custom fast compression"@
        } else if 4 <= n <= 9 {
            "Custom balanced compression"@
        } else if 10 <= n <= 22 {
            "Custom high compression"@
        } else {
            "Custom compression level"@
        },
    }
}

/// Estimated speed against maximum compression, in tenths (40 is 4.0x).
pub open spec fn speed_tenths_of(l: CompressionLevel) -> u32 {
    match l {
        CompressionLevel::Fast => 40,
        CompressionLevel::Balanced => 20,
        CompressionLevel::Maximum => 10,
        CompressionLevel::Custom(n) => if 1 <= n <= 3 {
            40
        } else if 4 <= n <= 6 {
            30
        } else if 7 <= n <= 9 {
            20
        } else if 10 <= n <= 15 {
            15
        } else {
            10
        },
    }
}

/// Estimated size increase against maximum compression, in tenths of a
/// percent (200 is 20.0%).
pub open spec fn size_tenths_of(l: CompressionLevel) -> u32 {
    match l {
        CompressionLevel::Fast => 200,
        CompressionLevel::Balanced => 100,
        CompressionLevel::Maximum => 0,
        CompressionLevel::Custom(n) => if 1 <= n <= 3 {
            200
        } else if 4 <= n <= 6 {
            150
        } else if 7 <= n <= 9 {
            100
        } else if 10 <= n <= 15 {
            50
        } else {
            0
        },
    }
}

/// ASCII lower case of a whole text.
pub open spec fn ascii_lowercase(s: Seq<char>) -> Seq<char> {
    s.map_values(|c: char| crate::artifact_qa::patchers::python_bytecode_cleanup::ascii_lower(c))
}

/// The result of parsing a compression level: the names `fast`,
/// `balanced`, `maximum` and `max` in any case, or a number from 1 to 22.
pub open spec fn parse_level(s: Seq<char>) -> Result<CompressionLevel, Seq<char>> {
    let lower = ascii_lowercase(s);
    if lower == "fast"@ {
        Ok(CompressionLevel::Fast)
    } else if lower == "balanced"@ {
        Ok(CompressionLevel::Balanced)
    } else if lower == "maximum"@ || lower == "max"@ {
        Ok(CompressionLevel::Maximum)
    } else {
        match parse_u8_spec(s) {
            Some(n) => if 1 <= n <= 22 {
                Ok(CompressionLevel::Custom(n))
            } else {
                Err("Compression level must be between 1 and 22, got "@ + decimal(n as nat))
            },
            None => Err("Invalid compression level '"@ + s + "'. Valid options: fast, balanced, maximum, or 1-22"@),
        }
    }
}

/// A tenths value written with one decimal: `40` as `4.0`.
pub open spec fn tenths_text(t: nat) -> Seq<char> {
    decimal(t / 10) + "."@ + decimal(t % 10)
}

fn tenths_string(t: u32) -> (r: String)
    ensures
        r@ == tenths_text(t as nat),
{
    let a = u64_to_string((t / 10) as u64);
    let b = concat(a.as_str(), ".");
    concat(b.as_str(), u64_to_string((t % 10) as u64).as_str())
}

pub(crate) fn ascii_lowercase_exec(s: &str) -> (r: Vec<char>)
    ensures
        r@ == ascii_lowercase(s@),
{
    let v = to_chars(s);
    let mut r: Vec<char> = Vec::new();
    for i in 0..v.len()
        invariant
            v@ == s@,
            r@ == ascii_lowercase(s@).take(i as int),
    {
        r.push(ascii_lower_char(v[i]));
        assert(ascii_lowercase(s@).take(i + 1) == ascii_lowercase(s@).take(i as int).push(
            crate::artifact_qa::patchers::python_bytecode_cleanup::ascii_lower(v@[i as int]),
        ));
    }
    assert(ascii_lowercase(s@).take(v@.len() as int) == ascii_lowercase(s@));
    r
}

impl CompressionLevel {
    /// Get the actual zstd compression level for this setting
    pub fn zstd_level(&self) -> (r: i32)
        ensures
            r == zstd_level_of(*self),
    {
        match self {
            CompressionLevel::Fast => 3,
            CompressionLevel::Balanced => 9,
            CompressionLevel::Maximum => 19,
            CompressionLevel::Custom(level) => {
                if *level < 1 {
                    1
                } else if *level > 22 {
                    22
                } else {
                    *level as i32
                }
            },
        }
    }

    /// Get a human-readable description of this compression level
    pub fn description(&self) -> (r: &'static str)
        ensures
            r@ == description_of(*self),
    {
        match self {
            CompressionLevel::Fast => "Fast compression - Quick builds, larger files (2-5x faster)",
            CompressionLevel::Balanced => "Balanced compression - Good speed/size tradeoff",
            CompressionLevel::Maximum => "Maximum compression - Best compression, slower builds (default)",
            CompressionLevel::Custom(level) => {
                let n = *level;
                if 1 <= n && n <= 3 {
                    "Custom fast compression"
                } else if 4 <= n && n <= 9 {
                    "Custom balanced compression"
                } else if 10 <= n && n <= 22 {
                    "Custom high compression"
                } else {
                    "Custom compression level"
                }
            },
        }
    }

    /// Estimated speed against maximum compression, in tenths.
    pub fn speed_tenths(&self) -> (r: u32)
        ensures
            r == speed_tenths_of(*self),
    {
        match self {
            CompressionLevel::Fast => 40,
            CompressionLevel::Balanced => 20,
            CompressionLevel::Maximum => 10,
            CompressionLevel::Custom(level) => {
                let n = *level;
                if 1 <= n && n <= 3 {
                    40
                } else if 4 <= n && n <= 6 {
                    30
                } else if 7 <= n && n <= 9 {
                    20
                } else if 10 <= n && n <= 15 {
                    15
                } else {
                    10
                }
            },
        }
    }

    /// Estimated size increase against maximum compression, in tenths of a percent.
    pub fn size_tenths(&self) -> (r: u32)
        ensures
            r == size_tenths_of(*self),
    {
        match self {
            CompressionLevel::Fast => 200,
            CompressionLevel::Balanced => 100,
            CompressionLevel::Maximum => 0,
            CompressionLevel::Custom(level) => {
                let n = *level;
                if 1 <= n && n <= 3 {
                    200
                } else if 4 <= n && n <= 6 {
                    150
                } else if 7 <= n && n <= 9 {
                    100
                } else if 10 <= n && n <= 15 {
                    50
                } else {
                    0
                }
            },
        }
    }

    /// The setting's name as shown to users: `fast`, `balanced`, `maximum`,
    /// or the custom level's number.
    pub fn display(&self) -> (r: String)
        ensures
            r@ == level_text(*self),
    {
        match self {
            CompressionLevel::Fast => owned("fast"),
            CompressionLevel::Balanced => owned("balanced"),
            CompressionLevel::Maximum => owned("maximum"),
            CompressionLevel::Custom(n) => u64_to_string(*n as u64),
        }
    }

    /// Parse compression level from string (for CLI and config)
    pub fn parse(s: &str) -> (r: Result<CompressionLevel, String>)
        ensures
            match r {
                Ok(l) => parse_level(s@) == Ok::<CompressionLevel, Seq<char>>(l),
                Err(e) => parse_level(s@) == Err::<CompressionLevel, Seq<char>>(e@),
            },
    {
        let lower = ascii_lowercase_exec(s);
        let l = lower.as_slice();
        if crate::text::eq_str(l, "fast") {
            Ok(CompressionLevel::Fast)
        } else if crate::text::eq_str(l, "balanced") {
            Ok(CompressionLevel::Balanced)
        } else if crate::text::eq_str(l, "maximum") || crate::text::eq_str(l, "max") {
            Ok(CompressionLevel::Maximum)
        } else {
            let v = to_chars(s);
            match parse_u8(v.as_slice()) {
                Some(level) => {
                    if 1 <= level && level <= 22 {
                        Ok(CompressionLevel::Custom(level))
                    } else {
                        Err(concat("Compression level must be between 1 and 22, got ", u64_to_string(level as u64).as_str()))
                    }
                },
                None => {
                    let a = concat("Invalid compression level '", s);
                    Err(concat(a.as_str(), "'. Valid options: fast, balanced, maximum, or 1-22"))
                },
            }
        }
    }
}

/// Compression configuration for zstd compression
#[derive(Clone, Copy, Debug, PartialEq, Eq, Structural)]
pub struct CompressionConfig {
    /// Compression level to use
    pub level: CompressionLevel,
}

impl Default for CompressionConfig {
    fn default() -> (r: Self)
        ensures
            r.level == CompressionLevel::Maximum,
    {
        CompressionConfig { level: CompressionLevel::Maximum }
    }
}

/// The summary line of a configuration: its description, its speed and its
/// size increase, each with one decimal.
pub open spec fn summary_of(l: CompressionLevel) -> Seq<char> {
    description_of(l) + " ("@ + tenths_text(speed_tenths_of(l) as nat) + "x faster, +"@ + tenths_text(
        size_tenths_of(l) as nat,
    ) + "% size)"@
}

impl CompressionConfig {
    /// Create config for fast builds
    pub fn fast() -> (r: Self)
        ensures
            r.level == CompressionLevel::Fast,
    {
        CompressionConfig { level: CompressionLevel::Fast }
    }

    /// Create config for balanced builds
    pub fn balanced() -> (r: Self)
        ensures
            r.level == CompressionLevel::Balanced,
    {
        CompressionConfig { level: CompressionLevel::Balanced }
    }

    /// Create config for maximum compression
    pub fn maximum() -> (r: Self)
        ensures
            r.level == CompressionLevel::Maximum,
    {
        CompressionConfig { level: CompressionLevel::Maximum }
    }

    /// Create config with custom level
    pub fn custom(level: u8) -> (r: Self)
        ensures
            r.level == CompressionLevel::Custom(level),
    {
        CompressionConfig { level: CompressionLevel::Custom(level) }
    }

    /// Get a summary of the compression configuration for display
    pub fn summary(&self) -> (r: String)
        ensures
            r@ == summary_of(self.level),
    {
        let a = concat(self.level.description(), " (");
        let b = concat(a.as_str(), tenths_string(self.level.speed_tenths()).as_str());
        let c = concat(b.as_str(), "x faster, +");
        let d = concat(c.as_str(), tenths_string(self.level.size_tenths()).as_str());
        concat(d.as_str(), "% size)")
    }
}

/// The name a setting is shown under: `fast`, `balanced`, `maximum`, or the
/// custom level's number.
pub open spec fn level_text(l: CompressionLevel) -> Seq<char> {
    match l {
        CompressionLevel::Fast => "fast"@,
        CompressionLevel::Balanced => "balanced"@,
        CompressionLevel::Maximum => "maximum"@,
        CompressionLevel::Custom(n) => decimal(n as nat),
    }
}

/// Parsing the name a setting is shown under gives the setting back, for
/// every named setting and every custom level that parsing accepts (1 to 22).
pub proof fn lemma_display_parse_roundtrip(l: CompressionLevel)
    requires
        l matches CompressionLevel::Custom(n) ==> 1 <= n <= 22,
    ensures
        parse_level(level_text(l)) == Ok::<CompressionLevel, Seq<char>>(l),
{
    reveal_strlit("fast");
    reveal_strlit("balanced");
    reveal_strlit("maximum");
    reveal_strlit("max");
    match l {
        CompressionLevel::Fast => {
            assert(ascii_lowercase("fast"@) =~= "fast"@);
        },
        CompressionLevel::Balanced => {
            assert(ascii_lowercase("balanced"@) =~= "balanced"@);
        },
        CompressionLevel::Maximum => {
            assert(ascii_lowercase("maximum"@) =~= "maximum"@);
        },
        CompressionLevel::Custom(n) => {
            let t = decimal(n as nat);
            crate::text::lemma_decimal_spells(n as nat);
            let lower = ascii_lowercase(t);
            assert('0' <= t[0] && t[0] <= '9');
            assert(lower[0] == t[0]);
            assert(lower != "fast"@ && lower != "balanced"@ && lower != "maximum"@ && lower != "max"@) by {
                assert("fast"@[0] == 'f');
                assert("balanced"@[0] == 'b');
                assert("maximum"@[0] == 'm');
                assert("max"@[0] == 'm');
            }
            assert(crate::text::unsigned_digits(t) == t);
        },
    }
}

/// The named settings compress within their documented bands, fastest to
/// smallest: fast at levels 1 to 3, balanced at 6 to 9, maximum at 19 to
/// 22; a custom level in the fast band compresses no harder than fast, and
/// one in the maximum band no lighter than maximum.
pub proof fn lemma_named_level_bands(n: u8)
    ensures
        1 <= zstd_level_of(CompressionLevel::Fast) <= 3,
        6 <= zstd_level_of(CompressionLevel::Balanced) <= 9,
        19 <= zstd_level_of(CompressionLevel::Maximum) <= 22,
        zstd_level_of(CompressionLevel::Fast) < zstd_level_of(CompressionLevel::Balanced),
        zstd_level_of(CompressionLevel::Balanced) < zstd_level_of(CompressionLevel::Maximum),
        1 <= n <= 3 ==> zstd_level_of(CompressionLevel::Custom(n)) <= zstd_level_of(CompressionLevel::Fast),
        19 <= n <= 22 ==> zstd_level_of(CompressionLevel::Custom(n)) >= zstd_level_of(CompressionLevel::Maximum),
{
}

/// Every setting compresses at a zstd level from 1 to 22, and a custom
/// setting within that range compresses at exactly its number.
pub proof fn lemma_levels_in_range(l: CompressionLevel)
    ensures
        1 <= zstd_level_of(l) <= 22,
        l matches CompressionLevel::Custom(n) ==> (1 <= n <= 22 ==> zstd_level_of(l) == n as i32),
{
}

} // verus!
