//! Cross-compilation: target triples, toolchain names, the flags and
//! arguments that a cross build hands to its tools.
use crate::errors::BuildError;
use crate::string_map::StringMap;
use crate::text::{
    concat, eq_str, from_chars, join_strings, join_with, owned, split_char, split_on, split_words,
    string_views, to_chars, views, words,
};
use vstd::prelude::*;

verus! {

/// A platform, as a target triple names it.
#[derive(Clone, Debug)]
pub struct Platform {
    /// Architecture, such as `aarch64`
    pub arch: String,
    /// Operating system, such as `linux`
    pub os: String,
    /// ABI, such as `gnu`
    pub abi: Option<String>,
    /// Vendor, such as `apple`
    pub vendor: Option<String>,
}

/// The view of an optional string.
pub open spec fn opt_view(o: Option<String>) -> Option<Seq<char>> {
    match o {
        Some(s) => Some(s@),
        None => None,
    }
}

/// The words that stand for a vendor in a triple.
pub open spec fn is_vendor_name(s: Seq<char>) -> bool {
    s == "apple"@ || s == "pc"@ || s == "unknown"@ || s == "none"@ || s == "w64"@
}

/// A triple's text: architecture, vendor if any, system, ABI if any.
pub open spec fn triple_of(arch: Seq<char>, vendor: Option<Seq<char>>, os: Seq<char>, abi: Option<Seq<char>>) -> Seq<char> {
    let head = match vendor {
        Some(v) => arch + "-"@ + v,
        None => arch,
    };
    let body = head + "-"@ + os;
    match abi {
        Some(a) => body + "-"@ + a,
        None => body,
    }
}

/// The fields that a triple gives, in the order architecture, vendor,
/// system, ABI; `None` where it has fewer than two parts.
pub open spec fn parse_triple(t: Seq<char>) -> Option<(Seq<char>, Option<Seq<char>>, Seq<char>, Option<Seq<char>>)> {
    let parts = split_char(t, '-');
    if parts.len() < 2 {
        None
    } else if parts.len() == 2 {
        Some((parts[0], None, parts[1], None))
    } else if parts.len() == 3 {
        if is_vendor_name(parts[1]) {
            Some((parts[0], Some(parts[1]), parts[2], None))
        } else {
            Some((parts[0], None, parts[1], Some(parts[2])))
        }
    } else if parts.len() == 4 {
        Some((parts[0], Some(parts[1]), parts[2], Some(parts[3])))
    } else {
        Some((parts[0], Some(parts[1]), parts[2], Some(join_with(parts.skip(3), "-"@))))
    }
}

/// A platform written as a triple and parsed back gives its fields back,
/// where no field holds a `-`: with a vendor and an ABI, with neither, with
/// a vendor name and no ABI, or with an ABI after a system that is no
/// vendor name.
pub proof fn lemma_triple_round_trip(
    arch: Seq<char>,
    vendor: Option<Seq<char>>,
    os: Seq<char>,
    abi: Option<Seq<char>>,
)
    requires
        !arch.contains('-'),
        !os.contains('-'),
        vendor matches Some(v) ==> !v.contains('-') && (abi is None ==> is_vendor_name(v)),
        abi matches Some(a) ==> !a.contains('-') && (vendor is None ==> !is_vendor_name(os)),
    ensures
        parse_triple(triple_of(arch, vendor, os, abi)) == Some((arch, vendor, os, abi)),
{
    reveal_strlit("-");
    assert("-"@ =~= seq!['-']);
    crate::paths::lemma_split_single(arch, '-');
    crate::paths::lemma_split_single(os, '-');
    let head = match vendor {
        Some(v) => arch + "-"@ + v,
        None => arch,
    };
    match vendor {
        Some(v) => {
            crate::paths::lemma_split_single(v, '-');
            crate::paths::lemma_split_around(arch, v, '-');
            assert(head =~= arch + seq!['-'] + v);
            assert(split_char(head, '-') =~= seq![arch, v]);
        },
        None => {},
    }
    let body = head + "-"@ + os;
    assert(body =~= head + seq!['-'] + os);
    crate::paths::lemma_split_around(head, os, '-');
    match abi {
        Some(a) => {
            crate::paths::lemma_split_single(a, '-');
            crate::paths::lemma_split_around(body, a, '-');
            assert(triple_of(arch, vendor, os, abi) =~= body + seq!['-'] + a);
        },
        None => {
            assert(triple_of(arch, vendor, os, abi) == body);
        },
    }
}

/// Parsing a platform's own triple gives back its fields, where no field
/// holds a `-` and the triple's parts decide the reading as above.
pub proof fn lemma_platform_triple_round_trip(p: Platform)
    requires
        !p.arch@.contains('-'),
        !p.os@.contains('-'),
        p.vendor matches Some(v) ==> !v@.contains('-') && (p.abi is None ==> is_vendor_name(v@)),
        p.abi matches Some(a) ==> !a@.contains('-') && (p.vendor is None ==> !is_vendor_name(p.os@)),
    ensures
        parse_triple(p.triple_spec()) == Some(p.fields()),
{
    lemma_triple_round_trip(p.arch@, opt_view(p.vendor), p.os@, opt_view(p.abi));
}

impl Platform {
    /// The platform's fields as views: architecture, vendor, system, ABI.
    pub open spec fn fields(&self) -> (Seq<char>, Option<Seq<char>>, Seq<char>, Option<Seq<char>>) {
        (self.arch@, opt_view(self.vendor), self.os@, opt_view(self.abi))
    }

    /// The platform's triple.
    pub open spec fn triple_spec(&self) -> Seq<char> {
        triple_of(self.arch@, opt_view(self.vendor), self.os@, opt_view(self.abi))
    }

    /// Whether a word is a vendor name.
    pub fn is_vendor(s: &str) -> (r: bool)
        ensures
            r == is_vendor_name(s@),
    {
        let v = to_chars(s);
        eq_str(v.as_slice(), "apple") || eq_str(v.as_slice(), "pc") || eq_str(v.as_slice(), "unknown")
            || eq_str(v.as_slice(), "none") || eq_str(v.as_slice(), "w64")
    }

    /// The platform's triple.
    pub fn triple(&self) -> (r: String)
        ensures
            r@ == self.triple_spec(),
    {
        let head = match &self.vendor {
            Some(v) => {
                let a = concat(self.arch.as_str(), "-");
                concat(a.as_str(), v.as_str())
            },
            None => self.arch.clone(),
        };
        let h2 = concat(head.as_str(), "-");
        let body = concat(h2.as_str(), self.os.as_str());
        match &self.abi {
            Some(a) => {
                let b2 = concat(body.as_str(), "-");
                concat(b2.as_str(), a.as_str())
            },
            None => body,
        }
    }

    /// Parses a target triple: `arch-os`, `arch-vendor-os` or `arch-os-abi`
    /// (by whether the second part is a vendor name), `arch-vendor-os-abi`,
    /// and longer ones whose ABI is the rest.
    pub fn from_triple(triple: &str) -> (r: Result<Platform, BuildError>)
        ensures
            match r {
                Ok(p) => parse_triple(triple@) == Some(p.fields()),
                Err(e) => parse_triple(triple@) is None
                    && (e matches BuildError::Failed { message } && message@ == "Invalid target triple: "@ + triple@),
            },
    {
        let tv = to_chars(triple);
        let parts = split_on(tv.as_slice(), '-');
        let ghost ps = views(parts@);
        assert(ps == split_char(triple@, '-'));
        if parts.len() < 2 {
            return Err(BuildError::Failed { message: concat("Invalid target triple: ", triple) });
        }
        let arch = from_chars(parts[0].as_slice());
        if parts.len() == 2 {
            return Ok(Platform { arch, os: from_chars(parts[1].as_slice()), abi: None, vendor: None });
        }
        if parts.len() == 3 {
            let p1 = from_chars(parts[1].as_slice());
            if Self::is_vendor(p1.as_str()) {
                return Ok(Platform { arch, os: from_chars(parts[2].as_slice()), abi: None, vendor: Some(p1) });
            } else {
                return Ok(Platform { arch, os: p1, abi: Some(from_chars(parts[2].as_slice())), vendor: None });
            }
        }
        if parts.len() == 4 {
            return Ok(Platform {
                arch,
                os: from_chars(parts[2].as_slice()),
                abi: Some(from_chars(parts[3].as_slice())),
                vendor: Some(from_chars(parts[1].as_slice())),
            });
        }
        let mut rest: Vec<String> = Vec::new();
        let mut i: usize = 3;
        while i < parts.len()
            invariant
                3 <= i <= parts@.len(),
                string_views(rest@) == views(parts@).subrange(3, i as int),
            decreases parts@.len() - i,
        {
            let ghost prev = rest@;
            rest.push(from_chars(parts[i].as_slice()));
            assert(string_views(rest@) =~= string_views(prev).push(parts@[i as int]@));
            assert(views(parts@).subrange(3, i + 1) =~= views(parts@).subrange(3, i as int).push(parts@[i as int]@));
            i = i + 1;
        }
        assert(views(parts@).subrange(3, parts@.len() as int) =~= ps.skip(3));
        Ok(Platform {
            arch,
            os: from_chars(parts[2].as_slice()),
            abi: Some(join_strings(&rest, "-")),
            vendor: Some(from_chars(parts[1].as_slice())),
        })
    }
}

/// The tools of a cross toolchain.
#[derive(Clone, Debug)]
pub struct Toolchain {
    /// C compiler
    pub cc: String,
    /// C++ compiler
    pub cxx: String,
    /// Archiver
    pub ar: String,
    /// Strip tool
    pub strip: String,
    /// Ranlib tool
    pub ranlib: String,
    /// Path of the CMake toolchain file
    pub cmake_toolchain_file: String,
    /// Path of the Meson cross file
    pub meson_cross_file: String,
}

/// Everything a cross build needs to know.
#[derive(Clone, Debug)]
pub struct CrossCompilationContext {
    /// The platform that builds
    pub build_platform: Platform,
    /// The platform the result runs on
    pub host_platform: Platform,
    /// The platform the result generates code for, for compilers
    pub target_platform: Option<Platform>,
    /// The sysroot of the host platform
    pub sysroot: String,
    /// The toolchain
    pub toolchain: Toolchain,
}

/// The name a platform's GNU-style toolchain is prefixed with, for the
/// combinations that have one.
pub open spec fn toolchain_prefix_of(arch: Seq<char>, os: Seq<char>, abi: Option<Seq<char>>) -> Seq<char> {
    if arch == "aarch64"@ && os == "linux"@ && abi == Some("gnu"@) {
        "aarch64-linux-gnu"@
    } else if arch == "aarch64"@ && os == "linux"@ && abi == Some("musl"@) {
        "aarch64-linux-musl"@
    } else if arch == "x86_64"@ && os == "linux"@ && abi == Some("gnu"@) {
        "x86_64-linux-gnu"@
    } else if arch == "x86_64"@ && os == "linux"@ && abi == Some("musl"@) {
        "x86_64-linux-musl"@
    } else if arch == "armv7"@ && os == "linux"@ && abi == Some("gnueabihf"@) {
        "arm-linux-gnueabihf"@
    } else if arch == "armv7"@ && os == "linux"@ && abi == Some("gnueabi"@) {
        "arm-linux-gnueabi"@
    } else if arch == "x86_64"@ && os == "windows"@ && abi == Some("gnu"@) {
        "x86_64-w64-mingw32"@
    } else if arch == "i686"@ && os == "windows"@ && abi == Some("gnu"@) {
        "i686-w64-mingw32"@
    } else {
        ""@
    }
}

/// A toolchain prefix is spelled from the platform: `<arch>-linux-<abi>` for
/// 64-bit ARM and x86 Linux with glibc or musl, `arm-linux-<abi>` for 32-bit
/// ARM Linux, `<arch>-w64-mingw32` for Windows with the GNU ABI; a system
/// other than Linux or Windows has none.
pub proof fn lemma_toolchain_prefix_spelling(arch: Seq<char>, os: Seq<char>, abi: Seq<char>)
    ensures
        (arch == "aarch64"@ || arch == "x86_64"@) && (abi == "gnu"@ || abi == "musl"@)
            ==> toolchain_prefix_of(arch, "linux"@, Some(abi)) == arch + "-linux-"@ + abi,
        (abi == "gnueabihf"@ || abi == "gnueabi"@) ==> toolchain_prefix_of("armv7"@, "linux"@, Some(abi)) == "arm-linux-"@ + abi,
        (arch == "x86_64"@ || arch == "i686"@) ==> toolchain_prefix_of(arch, "windows"@, Some("gnu"@)) == arch + "-w64-mingw32"@,
        os != "linux"@ && os != "windows"@ ==> toolchain_prefix_of(arch, os, Some(abi)).len() == 0,
{
    reveal_strlit("aarch64");
    reveal_strlit("x86_64");
    reveal_strlit("armv7");
    reveal_strlit("i686");
    reveal_strlit("linux");
    reveal_strlit("windows");
    reveal_strlit("gnu");
    reveal_strlit("musl");
    reveal_strlit("gnueabihf");
    reveal_strlit("gnueabi");
    reveal_strlit("-linux-");
    reveal_strlit("arm-linux-");
    reveal_strlit("-w64-mingw32");
    reveal_strlit("aarch64-linux-gnu");
    reveal_strlit("aarch64-linux-musl");
    reveal_strlit("x86_64-linux-gnu");
    reveal_strlit("x86_64-linux-musl");
    reveal_strlit("arm-linux-gnueabihf");
    reveal_strlit("arm-linux-gnueabi");
    reveal_strlit("x86_64-w64-mingw32");
    reveal_strlit("i686-w64-mingw32");
    reveal_strlit("");
    assert("aarch64"@[0] == 'a' && "x86_64"@[0] == 'x' && "i686"@[0] == 'i' && "armv7"@[0] == 'a' && "armv7"@[1] == 'r');
    assert("aarch64"@[1] == 'a');
    assert("gnu"@[0] == 'g' && "musl"@[0] == 'm' && "gnueabihf"@.len() == 9 && "gnueabi"@.len() == 7 && "gnu"@.len() == 3);
    assert("linux"@[0] == 'l' && "windows"@[0] == 'w');
    assert("aarch64-linux-gnu"@ =~= "aarch64"@ + "-linux-"@ + "gnu"@);
    assert("aarch64-linux-musl"@ =~= "aarch64"@ + "-linux-"@ + "musl"@);
    assert("x86_64-linux-gnu"@ =~= "x86_64"@ + "-linux-"@ + "gnu"@);
    assert("x86_64-linux-musl"@ =~= "x86_64"@ + "-linux-"@ + "musl"@);
    assert("arm-linux-gnueabihf"@ =~= "arm-linux-"@ + "gnueabihf"@);
    assert("arm-linux-gnueabi"@ =~= "arm-linux-"@ + "gnueabi"@);
    assert("x86_64-w64-mingw32"@ =~= "x86_64"@ + "-w64-mingw32"@);
    assert("i686-w64-mingw32"@ =~= "i686"@ + "-w64-mingw32"@);
}

/// Whether an optional string holds the given text.
fn opt_is(o: &Option<String>, t: &str) -> (r: bool)
    ensures
        r == (opt_view(*o) == Some(t@)),
{
    match o {
        Some(s) => {
            let v = to_chars(s.as_str());
            eq_str(v.as_slice(), t)
        },
        None => false,
    }
}

/// Whether a string holds the given text.
fn is(s: &String, t: &str) -> (r: bool)
    ensures
        r == (s@ == t@),
{
    let v = to_chars(s.as_str());
    eq_str(v.as_slice(), t)
}

/// The toolchain prefix of a platform; empty where it has none.
pub fn get_toolchain_prefix(platform: &Platform) -> (r: String)
    ensures
        r@ == toolchain_prefix_of(platform.arch@, platform.os@, opt_view(platform.abi)),
{
    let a = &platform.arch;
    let o = &platform.os;
    let b = &platform.abi;
    if is(a, "aarch64") && is(o, "linux") && opt_is(b, "gnu") {
        owned("aarch64-linux-gnu")
    } else if is(a, "aarch64") && is(o, "linux") && opt_is(b, "musl") {
        owned("aarch64-linux-musl")
    } else if is(a, "x86_64") && is(o, "linux") && opt_is(b, "gnu") {
        owned("x86_64-linux-gnu")
    } else if is(a, "x86_64") && is(o, "linux") && opt_is(b, "musl") {
        owned("x86_64-linux-musl")
    } else if is(a, "armv7") && is(o, "linux") && opt_is(b, "gnueabihf") {
        owned("arm-linux-gnueabihf")
    } else if is(a, "armv7") && is(o, "linux") && opt_is(b, "gnueabi") {
        owned("arm-linux-gnueabi")
    } else if is(a, "x86_64") && is(o, "windows") && opt_is(b, "gnu") {
        owned("x86_64-w64-mingw32")
    } else if is(a, "i686") && is(o, "windows") && opt_is(b, "gnu") {
        owned("i686-w64-mingw32")
    } else {
        owned("")
    }
}

/// The multiarch directory name of a platform: its GNU-style prefix for
/// Linux, else its triple.
pub open spec fn multiarch_triplet_of(p: Platform) -> Seq<char> {
    let pre = toolchain_prefix_of(p.arch@, p.os@, opt_view(p.abi));
    if p.os@ == "linux"@ && pre.len() > 0 {
        pre
    } else {
        p.triple_spec()
    }
}

/// The multiarch directory name of a platform.
pub fn get_multiarch_triplet(platform: &Platform) -> (r: String)
    ensures
        r@ == multiarch_triplet_of(*platform),
{
    let pre = get_toolchain_prefix(platform);
    if is(&platform.os, "linux") && to_chars(pre.as_str()).len() > 0 {
        pre
    } else {
        platform.triple()
    }
}

/// The prefixes under which a toolchain for the platform is looked for, in
/// order: its GNU-style prefix, its triple, and none.
pub open spec fn toolchain_prefixes_of(p: Platform) -> Seq<Seq<char>> {
    let pre = toolchain_prefix_of(p.arch@, p.os@, opt_view(p.abi));
    if pre.len() == 0 {
        seq![""@]
    } else {
        seq![pre + "-"@, p.triple_spec() + "-"@, ""@]
    }
}

/// The toolchain search ends with the unprefixed tools, and each prefix
/// before them is a name followed by `-`: the platform's GNU prefix, then
/// its full triple.
pub proof fn lemma_toolchain_prefixes_end_unprefixed(p: Platform)
    ensures
        toolchain_prefixes_of(p).len() >= 1,
        toolchain_prefixes_of(p).last().len() == 0,
        forall|i: int| 0 <= i < toolchain_prefixes_of(p).len() - 1 ==> (#[trigger] toolchain_prefixes_of(p)[i]).len() > 0
            && toolchain_prefixes_of(p)[i].last() == '-',
        toolchain_prefixes_of(p).len() > 1 ==> toolchain_prefixes_of(p)[1] == p.triple_spec() + "-"@,
{
    reveal_strlit("");
    reveal_strlit("-");
}

/// The prefixes under which a toolchain for the platform is looked for.
pub fn toolchain_prefixes(platform: &Platform) -> (r: Vec<String>)
    ensures
        string_views(r@) == toolchain_prefixes_of(*platform),
{
    let pre = get_toolchain_prefix(platform);
    let mut r: Vec<String> = Vec::new();
    if to_chars(pre.as_str()).len() == 0 {
        r.push(owned(""));
    } else {
        r.push(concat(pre.as_str(), "-"));
        let t = platform.triple();
        r.push(concat(t.as_str(), "-"));
        r.push(owned(""));
    }
    assert(string_views(r@) =~= toolchain_prefixes_of(*platform));
    r
}

/// The toolchain found under a prefix: GCC and binutils names, or Clang and
/// LLVM names; its files go in the sysroot.
pub fn toolchain_with_prefix(prefix: &str, clang: bool, sysroot: &str) -> (r: Toolchain)
    ensures
        r.cc@ == prefix@ + (if clang { "clang"@ } else { "gcc"@ }),
        r.cxx@ == prefix@ + (if clang { "clang++"@ } else { "g++"@ }),
        r.ar@ == prefix@ + (if clang { "llvm-ar"@ } else { "ar"@ }),
        r.strip@ == prefix@ + (if clang { "llvm-strip"@ } else { "strip"@ }),
        r.ranlib@ == prefix@ + (if clang { "llvm-ranlib"@ } else { "ranlib"@ }),
        r.cmake_toolchain_file@ == crate::paths::path_join(sysroot@, "toolchain.cmake"@),
        r.meson_cross_file@ == crate::paths::path_join(sysroot@, "cross-file.ini"@),
{
    Toolchain {
        cc: concat(prefix, if clang { "clang" } else { "gcc" }),
        cxx: concat(prefix, if clang { "clang++" } else { "g++" }),
        ar: concat(prefix, if clang { "llvm-ar" } else { "ar" }),
        strip: concat(prefix, if clang { "llvm-strip" } else { "strip" }),
        ranlib: concat(prefix, if clang { "llvm-ranlib" } else { "ranlib" }),
        cmake_toolchain_file: crate::paths::join(sysroot, "toolchain.cmake"),
        meson_cross_file: crate::paths::join(sysroot, "cross-file.ini"),
    }
}

/// Whether a build platform may cross-compile for a host platform.
pub open spec fn compatible_systems(build_os: Seq<char>, host_os: Seq<char>) -> bool {
    (build_os == "linux"@ && host_os == "linux"@)
        || (build_os == "darwin"@ && host_os == "darwin"@)
        || (build_os == "linux"@ && host_os == "windows"@)
        || (build_os == "darwin"@ && host_os == "linux"@)
}

/// The message that refuses a pair of platforms, if any.
pub open spec fn incompatibility(build: Platform, host: Platform) -> Option<Seq<char>> {
    if build.triple_spec() == host.triple_spec() {
        Some("Build and host platforms are the same, cross-compilation not needed"@)
    } else if compatible_systems(build.os@, host.os@) {
        None
    } else if build.os@ == "linux"@ && host.os@ == "darwin"@ {
        Some("Cross-compilation from Linux to macOS is not supported"@)
    } else {
        Some("Cross-compilation from "@ + build.os@ + " to "@ + host.os@ + " is not supported"@)
    }
}

/// Checks that a build platform can cross-compile for a host platform:
/// they differ, and the pair of systems is one that is supported.
pub fn validate_platform_compatibility(build: &Platform, host: &Platform) -> (r: Result<(), BuildError>)
    ensures
        match incompatibility(*build, *host) {
            None => r is Ok,
            Some(m) => r matches Err(BuildError::Failed { message }) && message@ == m,
        },
{
    let bt = build.triple();
    let ht = host.triple();
    let bv = to_chars(bt.as_str());
    let hv = to_chars(ht.as_str());
    if crate::text::chars_eq(bv.as_slice(), hv.as_slice()) {
        return Err(BuildError::Failed {
            message: owned("Build and host platforms are the same, cross-compilation not needed"),
        });
    }
    let b = &build.os;
    let h = &host.os;
    if (is(b, "linux") && is(h, "linux")) || (is(b, "darwin") && is(h, "darwin")) || (is(b, "linux") && is(h, "windows"))
        || (is(b, "darwin") && is(h, "linux")) {
        Ok(())
    } else if is(b, "linux") && is(h, "darwin") {
        Err(BuildError::Failed { message: owned("Cross-compilation from Linux to macOS is not supported") })
    } else {
        let a = concat("Cross-compilation from ", b.as_str());
        let c = concat(a.as_str(), " to ");
        let d = concat(c.as_str(), h.as_str());
        Err(BuildError::Failed { message: concat(d.as_str(), " is not supported") })
    }
}

/// The compiler and linker flags of a cross build for a host platform with
/// a sysroot. An architecture flag replaces the sysroot flag in `CFLAGS`.
pub open spec fn cross_flags_of(host: Platform, sysroot: Seq<char>) -> Map<Seq<char>, Seq<char>> {
    let sys = "--sysroot="@ + sysroot;
    let darwin = host.os@ == "darwin"@;
    let m0 = Map::<Seq<char>, Seq<char>>::empty()
        .insert("CFLAGS"@, sys)
        .insert("CXXFLAGS"@, sys)
        .insert("LDFLAGS"@, if darwin { sys + " -headerpad_max_install_names"@ } else { sys });
    let m1 = if host.arch@ == "aarch64"@ {
        m0.insert("CFLAGS"@, "-march=armv8-a"@)
    } else if host.arch@ == "armv7"@ {
        if opt_view(host.abi) == Some("gnueabihf"@) {
            m0.insert("CFLAGS"@, "-mfpu=neon-vfpv4"@)
        } else {
            m0.insert("CFLAGS"@, "-march=armv7-a"@)
        }
    } else {
        m0
    };
    if darwin {
        m1.insert("MACOSX_DEPLOYMENT_TARGET"@, "11.0"@)
    } else {
        m1
    }
}

/// The compiler and linker flags of a cross build.
pub fn setup_cross_flags(host: &Platform, sysroot: &str) -> (r: StringMap)
    ensures
        r.wf(),
        r@ == cross_flags_of(*host, sysroot@),
{
    let sys = concat("--sysroot=", sysroot);
    let darwin = is(&host.os, "darwin");
    let mut m = StringMap::new();
    m.insert(owned("CFLAGS"), sys.clone());
    m.insert(owned("CXXFLAGS"), sys.clone());
    let ld = if darwin { concat(sys.as_str(), " -headerpad_max_install_names") } else { sys };
    m.insert(owned("LDFLAGS"), ld);
    if is(&host.arch, "aarch64") {
        m.insert(owned("CFLAGS"), owned("-march=armv8-a"));
    } else if is(&host.arch, "armv7") {
        m.insert(owned("CFLAGS"), owned("-march=armv7-a"));
        if opt_is(&host.abi, "gnueabihf") {
            m.insert(owned("CFLAGS"), owned("-mfpu=neon-vfpv4"));
        }
    }
    if darwin {
        m.insert(owned("MACOSX_DEPLOYMENT_TARGET"), owned("11.0"));
    }
    m
}

/// Each word of `args` in single quotes, the words separated by a comma
/// and a space.
pub open spec fn meson_args_of(args: Seq<char>) -> Seq<char> {
    join_with(words(args).map_values(|w: Seq<char>| "'"@ + w + "'"@), ", "@)
}

/// The flags of a Meson array.
pub fn format_meson_args(args: &str) -> (r: String)
    ensures
        r@ == meson_args_of(args@),
{
    let ws = split_words(to_chars(args).as_slice());
    let mut quoted: Vec<String> = Vec::new();
    for i in 0..ws.len()
        invariant
            views(ws@) == words(args@),
            string_views(quoted@) == views(ws@).take(i as int).map_values(|w: Seq<char>| "'"@ + w + "'"@),
    {
        let a = concat("'", from_chars(ws[i].as_slice()).as_str());
        let ghost prev = quoted@;
        quoted.push(concat(a.as_str(), "'"));
        assert(string_views(quoted@) =~= string_views(prev).push("'"@ + ws@[i as int]@ + "'"@));
        assert(views(ws@).take(i + 1).map_values(|w: Seq<char>| "'"@ + w + "'"@) =~= views(ws@).take(
            i as int,
        ).map_values(|w: Seq<char>| "'"@ + w + "'"@).push("'"@ + ws@[i as int]@ + "'"@));
    }
    assert(views(ws@).take(ws@.len() as int) =~= views(ws@));
    join_strings(&quoted, ", ")
}

/// The byte order of an architecture: big for PowerPC and SPARC, else little.
pub fn get_endianness(arch: &str) -> (r: &'static str)
    ensures
        r@ == (if arch@ == "powerpc"@ || arch@ == "sparc"@ { "big"@ } else { "little"@ }),
{
    let v = to_chars(arch);
    if eq_str(v.as_slice(), "powerpc") || eq_str(v.as_slice(), "sparc") {
        "big"
    } else {
        "little"
    }
}

/// A flag of the cross flags, or nothing.
pub open spec fn flag_or_empty(flags: Map<Seq<char>, Seq<char>>, key: Seq<char>) -> Seq<char> {
    if flags.contains_key(key) {
        flags[key]
    } else {
        ""@
    }
}

/// The configure arguments of an autotools cross build.
pub open spec fn autotools_cross_args_of(
    ctx: CrossCompilationContext,
    flags: Map<Seq<char>, Seq<char>>,
) -> Seq<Seq<char>> {
    let head = seq!["--host="@ + ctx.host_platform.triple_spec(), "--build="@ + ctx.build_platform.triple_spec()];
    let with_target = match ctx.target_platform {
        Some(t) => head.push("--target="@ + t.triple_spec()),
        None => head,
    };
    with_target
        .push("CFLAGS"@ + "=--sysroot="@ + ctx.sysroot@ + " "@ + flag_or_empty(flags, "CFLAGS"@))
        .push("CXXFLAGS"@ + "=--sysroot="@ + ctx.sysroot@ + " "@ + flag_or_empty(flags, "CXXFLAGS"@))
        .push("LDFLAGS"@ + "=--sysroot="@ + ctx.sysroot@ + " "@ + flag_or_empty(flags, "LDFLAGS"@))
}

fn flag_text(flags: &StringMap, key: &str) -> (r: String)
    requires
        flags.wf(),
    ensures
        r@ == flag_or_empty(flags@, key@),
{
    match flags.get(key) {
        Some(v) => v.clone(),
        None => owned(""),
    }
}

fn sysroot_arg(name: &str, sysroot: &str, flag: &str) -> (r: String)
    ensures
        r@ == name@ + "=--sysroot="@ + sysroot@ + " "@ + flag@,
{
    let a = concat(name, "=--sysroot=");
    let b = concat(a.as_str(), sysroot);
    let c = concat(b.as_str(), " ");
    concat(c.as_str(), flag)
}

/// The configure arguments of an autotools cross build: the host, build and
/// target triples, and the sysroot before each set of flags.
pub fn get_autotools_configure_args(ctx: &CrossCompilationContext, flags: &StringMap) -> (r: Vec<String>)
    requires
        flags.wf(),
    ensures
        string_views(r@) == autotools_cross_args_of(*ctx, flags@),
{
    let mut args: Vec<String> = Vec::new();
    let h = ctx.host_platform.triple();
    args.push(concat("--host=", h.as_str()));
    let b = ctx.build_platform.triple();
    args.push(concat("--build=", b.as_str()));
    match &ctx.target_platform {
        Some(t) => {
            let tt = t.triple();
            args.push(concat("--target=", tt.as_str()));
        },
        None => {},
    }
    let cf = flag_text(flags, "CFLAGS");
    args.push(sysroot_arg("CFLAGS", ctx.sysroot.as_str(), cf.as_str()));
    let cxf = flag_text(flags, "CXXFLAGS");
    args.push(sysroot_arg("CXXFLAGS", ctx.sysroot.as_str(), cxf.as_str()));
    let lf = flag_text(flags, "LDFLAGS");
    args.push(sysroot_arg("LDFLAGS", ctx.sysroot.as_str(), lf.as_str()));
    assert(string_views(args@) =~= autotools_cross_args_of(*ctx, flags@));
    args
}

/// A cross-compilation context with the tools found, the library and
/// pkg-config directories found in the sysroot, and the cross flags.
#[derive(Clone, Debug)]
pub struct EnhancedCrossContext {
    /// Base cross-compilation context
    pub base: CrossCompilationContext,
    /// The tools found, by role (`cc`, `cxx`, `ar`, `strip`, `ranlib`)
    pub validated_tools: StringMap,
    /// Library directories of the sysroot that exist
    pub multiarch_paths: Vec<String>,
    /// pkg-config directories of the sysroot that exist
    pub pkg_config_paths: Vec<String>,
    /// Cross-compilation flags
    pub cross_flags: StringMap,
}

/// The CMake system name of an operating system, in toolchain files.
pub open spec fn toolchain_system_name(os: Seq<char>) -> Seq<char> {
    if os == "darwin"@ {
        "Darwin"@
    } else if os == "linux"@ {
        "Linux"@
    } else if os == "windows"@ {
        "Windows"@
    } else if os == "freebsd"@ {
        "FreeBSD"@
    } else {
        "Generic"@
    }
}

/// The Meson CPU family of an architecture.
pub open spec fn cpu_family_of(arch: Seq<char>) -> Seq<char> {
    if arch == "x86_64"@ {
        "x86_64"@
    } else if arch == "aarch64"@ {
        "aarch64"@
    } else if arch == "armv7"@ {
        "arm"@
    } else if arch == "i686"@ {
        "x86"@
    } else {
        arch
    }
}

/// The tools a generated file names are all known.
pub open spec fn tools_known(tools: Map<Seq<char>, Seq<char>>) -> bool {
    tools.contains_key("cc"@) && tools.contains_key("cxx"@) && tools.contains_key("ar"@) && tools.contains_key("strip"@)
        && tools.contains_key("ranlib"@)
}

/// The pieces of a CMake toolchain file around its values.
pub open spec fn cmake_toolchain_pieces() -> Seq<Seq<char>> {
    seq![
            "# CMake toolchain file for cross-compilation\n# Generated by sps2\n\nset(CMAKE_SYSTEM_NAME "@,
            ")\nset(CMAKE_SYSTEM_PROCESSOR "@,
            ")\n\n# Sysroot\nset(CMAKE_SYSROOT "@,
            ")\nset(CMAKE_STAGING_PREFIX "@,
            ")\n\n# Compilers\nset(CMAKE_C_COMPILER "@,
            ")\nset(CMAKE_CXX_COMPILER "@,
            ")\nset(CMAKE_AR "@,
            " CACHE FILEPATH \"Archiver\")\nset(CMAKE_RANLIB "@,
            " CACHE FILEPATH \"Ranlib\")\nset(CMAKE_STRIP "@,
            " CACHE FILEPATH \"Strip\")\n\n# Flags\nset(CMAKE_C_FLAGS_INIT \""@,
            "\")\nset(CMAKE_CXX_FLAGS_INIT \""@,
            "\")\nset(CMAKE_EXE_LINKER_FLAGS_INIT \""@,
            "\")\nset(CMAKE_SHARED_LINKER_FLAGS_INIT \""@,
            "\")\n\n# Find root settings\nset(CMAKE_FIND_ROOT_PATH "@,
            ")\nset(CMAKE_FIND_ROOT_PATH_MODE_PROGRAM NEVER)\nset(CMAKE_FIND_ROOT_PATH_MODE_LIBRARY ONLY)\nset(CMAKE_FIND_ROOT_PATH_MODE_INCLUDE ONLY)\nset(CMAKE_FIND_ROOT_PATH_MODE_PACKAGE ONLY)\n\n# Library paths\nset(CMAKE_LIBRARY_PATH "@,
            ")\nset(CMAKE_INCLUDE_PATH "@,
            "/usr/include)\n\n# pkg-config\nset(ENV{PKG_CONFIG_PATH} \""@,
            "\")\nset(ENV{PKG_CONFIG_SYSROOT_DIR} \""@,
            "\")\n"@,
        ]
}

/// The pieces of a Meson cross file around its values.
pub open spec fn meson_cross_pieces() -> Seq<Seq<char>> {
    seq![
            "# Meson cross file for cross-compilation\n# Generated by sps2\n\n[binaries]\nc = '"@,
            "'\ncpp = '"@,
            "'\nar = '"@,
            "'\nstrip = '"@,
            "'\nranlib = '"@,
            "'\npkg-config = 'pkg-config'\n\n[properties]\nsys_root = '"@,
            "'\npkg_config_libdir = '"@,
            "'\n\n[built-in options]\nc_args = ["@,
            "]\ncpp_args = ["@,
            "]\nc_link_args = ["@,
            "]\ncpp_link_args = ["@,
            "]\n\n[host_machine]\nsystem = '"@,
            "'\ncpu_family = '"@,
            "'\ncpu = '"@,
            "'\nendian = '"@,
            "'\n"@,
        ]
}

/// The pieces of a Cargo configuration around its values.
pub open spec fn cargo_config_pieces() -> Seq<Seq<char>> {
    seq![
            "# Cargo configuration for cross-compilation\n# Generated by sps2\n\n[target."@,
            "]\nlinker = \""@,
            "\"\nar = \""@,
            "\"\nrustflags = [\"-C\", \"link-arg=--sysroot="@,
            "\", \"-C\", \"target-feature=+crt-static\"]\n\n[env]\nCARGO_TARGET_DIR = \"target/"@,
            "\"\n"@,
        ]
}

/// The values of a CMake toolchain file.
pub open spec fn cmake_toolchain_values(c: EnhancedCrossContext) -> Seq<Seq<char>> {
    let t = c.validated_tools@;
    let f = c.cross_flags@;
    let sys = c.base.sysroot@;
    seq![
        toolchain_system_name(c.base.host_platform.os@),
        c.base.host_platform.arch@,
        sys,
        sys,
        t["cc"@],
        t["cxx"@],
        t["ar"@],
        t["ranlib"@],
        t["strip"@],
        flag_or_empty(f, "CFLAGS"@),
        flag_or_empty(f, "CXXFLAGS"@),
        flag_or_empty(f, "LDFLAGS"@),
        flag_or_empty(f, "LDFLAGS"@),
        sys,
        join_with(string_views(c.multiarch_paths@), ";"@),
        sys,
        join_with(string_views(c.pkg_config_paths@), ":"@),
        sys,
    ]
}

/// The values of a Meson cross file.
pub open spec fn meson_cross_values(c: EnhancedCrossContext) -> Seq<Seq<char>> {
    let t = c.validated_tools@;
    let f = c.cross_flags@;
    seq![
        t["cc"@],
        t["cxx"@],
        t["ar"@],
        t["strip"@],
        t["ranlib"@],
        c.base.sysroot@,
        join_with(string_views(c.pkg_config_paths@), ":"@),
        meson_args_of(flag_or_empty(f, "CFLAGS"@)),
        meson_args_of(flag_or_empty(f, "CXXFLAGS"@)),
        meson_args_of(flag_or_empty(f, "LDFLAGS"@)),
        meson_args_of(flag_or_empty(f, "LDFLAGS"@)),
        c.base.host_platform.os@,
        cpu_family_of(c.base.host_platform.arch@),
        c.base.host_platform.arch@,
        if c.base.host_platform.arch@ == "powerpc"@ || c.base.host_platform.arch@ == "sparc"@ { "big"@ } else { "little"@ },
    ]
}

/// The values of a Cargo configuration.
pub open spec fn cargo_config_values(c: EnhancedCrossContext) -> Seq<Seq<char>> {
    let t = c.validated_tools@;
    let target = c.base.host_platform.triple_spec();
    seq![target, t["cc"@], t["ar"@], c.base.sysroot@, target]
}

proof fn lemma_contains_middle(x: Seq<char>, n: Seq<char>, y: Seq<char>)
    ensures
        crate::text::contains(x + n + y, n),
{
    assert((x + n + y).subrange(x.len() as int, (x.len() + n.len()) as int) =~= n);
    assert(crate::text::occurs_at(x + n + y, n, x.len() as int));
}

/// A template of six pieces filled with five values.
proof fn lemma_fill_five(ps: Seq<Seq<char>>, vs: Seq<Seq<char>>)
    requires
        ps.len() == 6,
        vs.len() == 5,
    ensures
        crate::text::fill(ps, vs) == ps[0] + vs[0] + ps[1] + vs[1] + ps[2] + vs[2] + ps[3] + vs[3] + ps[4] + vs[4] + ps[5],
{
    let v4 = vs.drop_last();
    let v3 = v4.drop_last();
    let v2 = v3.drop_last();
    let v1 = v2.drop_last();
    let v0 = v1.drop_last();
    assert(v0.len() == 0);
    assert(crate::text::fill(ps, v0) == ps[0]);
    assert(crate::text::fill(ps, v1) == ps[0] + vs[0] + ps[1]);
    assert(crate::text::fill(ps, v2) == ps[0] + vs[0] + ps[1] + vs[1] + ps[2]);
    assert(crate::text::fill(ps, v3) == ps[0] + vs[0] + ps[1] + vs[1] + ps[2] + vs[2] + ps[3]);
    assert(crate::text::fill(ps, v4) == ps[0] + vs[0] + ps[1] + vs[1] + ps[2] + vs[2] + ps[3] + vs[3] + ps[4]);
}

proof fn lemma_cargo_linker_line(ps: Seq<Seq<char>>, vs: Seq<Seq<char>>)
    requires
        ps == cargo_config_pieces(),
        vs.len() == 5,
    ensures
        crate::text::contains(
            ps[0] + vs[0] + ps[1] + vs[1] + ps[2] + vs[2] + ps[3] + vs[3] + ps[4] + vs[4] + ps[5],
            "linker = \""@ + vs[1] + "\""@,
        ),
{
    reveal_strlit("]\nlinker = \"");
    reveal_strlit("\"\nar = \"");
    reveal_strlit("]\n");
    reveal_strlit("linker = \"");
    reveal_strlit("\"");
    assert(ps[1] =~= "]\n"@ + "linker = \""@);
    assert(ps[2] =~= "\""@ + ps[2].skip(1));
    let x = ps[0] + vs[0] + "]\n"@;
    let y = ps[2].skip(1) + vs[2] + ps[3] + vs[3] + ps[4] + vs[4] + ps[5];
    assert(ps[0] + vs[0] + ps[1] + vs[1] + ps[2] + vs[2] + ps[3] + vs[3] + ps[4] + vs[4] + ps[5] =~= x + (
    "linker = \""@ + vs[1] + "\""@) + y);
    lemma_contains_middle(x, "linker = \""@ + vs[1] + "\""@, y);
}

proof fn lemma_cargo_ar_line(ps: Seq<Seq<char>>, vs: Seq<Seq<char>>)
    requires
        ps == cargo_config_pieces(),
        vs.len() == 5,
    ensures
        crate::text::contains(
            ps[0] + vs[0] + ps[1] + vs[1] + ps[2] + vs[2] + ps[3] + vs[3] + ps[4] + vs[4] + ps[5],
            "ar = \""@ + vs[2] + "\""@,
        ),
{
    reveal_strlit("\"\nar = \"");
    reveal_strlit("\"\nrustflags = [\"-C\", \"link-arg=--sysroot=");
    reveal_strlit("\"\n");
    reveal_strlit("ar = \"");
    reveal_strlit("\"");
    assert(ps[2] =~= "\"\n"@ + "ar = \""@);
    assert(ps[3] =~= "\""@ + ps[3].skip(1));
    let x = ps[0] + vs[0] + ps[1] + vs[1] + "\"\n"@;
    let y = ps[3].skip(1) + vs[3] + ps[4] + vs[4] + ps[5];
    assert(ps[0] + vs[0] + ps[1] + vs[1] + ps[2] + vs[2] + ps[3] + vs[3] + ps[4] + vs[4] + ps[5] =~= x + (
    "ar = \""@ + vs[2] + "\""@) + y);
    lemma_contains_middle(x, "ar = \""@ + vs[2] + "\""@, y);
}

/// The Cargo cross configuration links with the C compiler and archives with
/// the archiver: it holds `linker = "<cc>"` and `ar = "<ar>"`.
pub proof fn lemma_cargo_config_tools(c: EnhancedCrossContext)
    ensures
        crate::text::contains(
            crate::text::fill(cargo_config_pieces(), cargo_config_values(c)),
            "linker = \""@ + c.validated_tools@["cc"@] + "\""@,
        ),
        crate::text::contains(
            crate::text::fill(cargo_config_pieces(), cargo_config_values(c)),
            "ar = \""@ + c.validated_tools@["ar"@] + "\""@,
        ),
{
    let ps = cargo_config_pieces();
    let vs = cargo_config_values(c);
    lemma_fill_five(ps, vs);
    lemma_cargo_linker_line(ps, vs);
    lemma_cargo_ar_line(ps, vs);
}

fn tool(tools: &StringMap, name: &str) -> (r: String)
    requires
        tools.wf(),
        tools@.contains_key(name@),
    ensures
        r@ == tools@[name@],
{
    match tools.get(name) {
        Some(v) => v.clone(),
        None => owned(""),
    }
}

impl EnhancedCrossContext {
    /// The library directories to look for in the sysroot: the multiarch
    /// ones, then `usr/lib` and `lib`.
    pub fn multiarch_candidates(&self) -> (r: Vec<String>)
        ensures
            string_views(r@) == seq![
                crate::paths::path_join(self.base.sysroot@, "usr/lib/"@ + multiarch_triplet_of(self.base.host_platform)),
                crate::paths::path_join(self.base.sysroot@, "lib/"@ + multiarch_triplet_of(self.base.host_platform)),
                crate::paths::path_join(self.base.sysroot@, "usr/lib"@),
                crate::paths::path_join(self.base.sysroot@, "lib"@),
            ],
    {
        let t = get_multiarch_triplet(&self.base.host_platform);
        let sys = self.base.sysroot.as_str();
        let mut r: Vec<String> = Vec::new();
        r.push(crate::paths::join(sys, concat("usr/lib/", t.as_str()).as_str()));
        r.push(crate::paths::join(sys, concat("lib/", t.as_str()).as_str()));
        r.push(crate::paths::join(sys, "usr/lib"));
        r.push(crate::paths::join(sys, "lib"));
        assert(string_views(r@) =~= seq![
            crate::paths::path_join(self.base.sysroot@, "usr/lib/"@ + multiarch_triplet_of(self.base.host_platform)),
            crate::paths::path_join(self.base.sysroot@, "lib/"@ + multiarch_triplet_of(self.base.host_platform)),
            crate::paths::path_join(self.base.sysroot@, "usr/lib"@),
            crate::paths::path_join(self.base.sysroot@, "lib"@),
        ]);
        r
    }

    /// The pkg-config directories to look for: `pkgconfig` in each library
    /// directory found, then the sysroot's shared and local ones.
    pub fn pkg_config_candidates(&self) -> (r: Vec<String>)
        ensures
            string_views(r@) == string_views(self.multiarch_paths@).map_values(
                |p: Seq<char>| crate::paths::path_join(p, "pkgconfig"@),
            ) + seq![
                crate::paths::path_join(self.base.sysroot@, "usr/share/pkgconfig"@),
                crate::paths::path_join(self.base.sysroot@, "usr/local/lib/pkgconfig"@),
            ],
    {
        let ghost mv = string_views(self.multiarch_paths@);
        let mut r: Vec<String> = Vec::new();
        for i in 0..self.multiarch_paths.len()
            invariant
                mv == string_views(self.multiarch_paths@),
                string_views(r@) == mv.take(i as int).map_values(|p: Seq<char>| crate::paths::path_join(p, "pkgconfig"@)),
        {
            let ghost prev = r@;
            r.push(crate::paths::join(self.multiarch_paths[i].as_str(), "pkgconfig"));
            assert(string_views(r@) =~= string_views(prev).push(crate::paths::path_join(mv[i as int], "pkgconfig"@)));
            assert(mv.take(i + 1).map_values(|p: Seq<char>| crate::paths::path_join(p, "pkgconfig"@)) =~= mv.take(
                i as int,
            ).map_values(|p: Seq<char>| crate::paths::path_join(p, "pkgconfig"@)).push(
                crate::paths::path_join(mv[i as int], "pkgconfig"@),
            ));
        }
        assert(mv.take(mv.len() as int) =~= mv);
        let ghost head = string_views(r@);
        r.push(crate::paths::join(self.base.sysroot.as_str(), "usr/share/pkgconfig"));
        r.push(crate::paths::join(self.base.sysroot.as_str(), "usr/local/lib/pkgconfig"));
        assert(string_views(r@) =~= head + seq![
            crate::paths::path_join(self.base.sysroot@, "usr/share/pkgconfig"@),
            crate::paths::path_join(self.base.sysroot@, "usr/local/lib/pkgconfig"@),
        ]);
        r
    }

    /// The text of the CMake toolchain file.
    pub fn cmake_toolchain_content(&self) -> (r: String)
        requires
            self.validated_tools.wf(),
            self.cross_flags.wf(),
            tools_known(self.validated_tools@),
        ensures
            r@ == crate::text::fill(cmake_toolchain_pieces(), cmake_toolchain_values(*self)),
    {
        let pieces: Vec<&str> = vec![
            "# CMake toolchain file for cross-compilation\n# Generated by sps2\n\nset(CMAKE_SYSTEM_NAME ",
            ")\nset(CMAKE_SYSTEM_PROCESSOR ",
            ")\n\n# Sysroot\nset(CMAKE_SYSROOT ",
            ")\nset(CMAKE_STAGING_PREFIX ",
            ")\n\n# Compilers\nset(CMAKE_C_COMPILER ",
            ")\nset(CMAKE_CXX_COMPILER ",
            ")\nset(CMAKE_AR ",
            " CACHE FILEPATH \"Archiver\")\nset(CMAKE_RANLIB ",
            " CACHE FILEPATH \"Ranlib\")\nset(CMAKE_STRIP ",
            " CACHE FILEPATH \"Strip\")\n\n# Flags\nset(CMAKE_C_FLAGS_INIT \"",
            "\")\nset(CMAKE_CXX_FLAGS_INIT \"",
            "\")\nset(CMAKE_EXE_LINKER_FLAGS_INIT \"",
            "\")\nset(CMAKE_SHARED_LINKER_FLAGS_INIT \"",
            "\")\n\n# Find root settings\nset(CMAKE_FIND_ROOT_PATH ",
            ")\nset(CMAKE_FIND_ROOT_PATH_MODE_PROGRAM NEVER)\nset(CMAKE_FIND_ROOT_PATH_MODE_LIBRARY ONLY)\nset(CMAKE_FIND_ROOT_PATH_MODE_INCLUDE ONLY)\nset(CMAKE_FIND_ROOT_PATH_MODE_PACKAGE ONLY)\n\n# Library paths\nset(CMAKE_LIBRARY_PATH ",
            ")\nset(CMAKE_INCLUDE_PATH ",
            "/usr/include)\n\n# pkg-config\nset(ENV{PKG_CONFIG_PATH} \"",
            "\")\nset(ENV{PKG_CONFIG_SYSROOT_DIR} \"",
            "\")\n",
        ];
        assert(pieces@.map_values(|p: &str| p@) =~= cmake_toolchain_pieces());
        let os = to_chars(self.base.host_platform.os.as_str());
        let system = if eq_str(os.as_slice(), "darwin") {
            "Darwin"
        } else if eq_str(os.as_slice(), "linux") {
            "Linux"
        } else if eq_str(os.as_slice(), "windows") {
            "Windows"
        } else if eq_str(os.as_slice(), "freebsd") {
            "FreeBSD"
        } else {
            "Generic"
        };
        let t = &self.validated_tools;
        let f = &self.cross_flags;
        let sys = &self.base.sysroot;
        let mut v: Vec<String> = Vec::new();
        v.push(owned(system));
        v.push(self.base.host_platform.arch.clone());
        v.push(sys.clone());
        v.push(sys.clone());
        v.push(tool(t, "cc"));
        v.push(tool(t, "cxx"));
        v.push(tool(t, "ar"));
        v.push(tool(t, "ranlib"));
        v.push(tool(t, "strip"));
        v.push(flag_text(f, "CFLAGS"));
        v.push(flag_text(f, "CXXFLAGS"));
        v.push(flag_text(f, "LDFLAGS"));
        v.push(flag_text(f, "LDFLAGS"));
        v.push(sys.clone());
        v.push(join_strings(&self.multiarch_paths, ";"));
        v.push(sys.clone());
        v.push(join_strings(&self.pkg_config_paths, ":"));
        v.push(sys.clone());
        assert(string_views(v@) =~= cmake_toolchain_values(*self));
        crate::text::fill_template(&pieces, &v)
    }

    /// The text of the Meson cross file.
    pub fn meson_cross_content(&self) -> (r: String)
        requires
            self.validated_tools.wf(),
            self.cross_flags.wf(),
            tools_known(self.validated_tools@),
        ensures
            r@ == crate::text::fill(meson_cross_pieces(), meson_cross_values(*self)),
    {
        let pieces: Vec<&str> = vec![
            "# Meson cross file for cross-compilation\n# Generated by sps2\n\n[binaries]\nc = '",
            "'\ncpp = '",
            "'\nar = '",
            "'\nstrip = '",
            "'\nranlib = '",
            "'\npkg-config = 'pkg-config'\n\n[properties]\nsys_root = '",
            "'\npkg_config_libdir = '",
            "'\n\n[built-in options]\nc_args = [",
            "]\ncpp_args = [",
            "]\nc_link_args = [",
            "]\ncpp_link_args = [",
            "]\n\n[host_machine]\nsystem = '",
            "'\ncpu_family = '",
            "'\ncpu = '",
            "'\nendian = '",
            "'\n",
        ];
        assert(pieces@.map_values(|p: &str| p@) =~= meson_cross_pieces());
        let arch = to_chars(self.base.host_platform.arch.as_str());
        let family = if eq_str(arch.as_slice(), "x86_64") {
            owned("x86_64")
        } else if eq_str(arch.as_slice(), "aarch64") {
            owned("aarch64")
        } else if eq_str(arch.as_slice(), "armv7") {
            owned("arm")
        } else if eq_str(arch.as_slice(), "i686") {
            owned("x86")
        } else {
            self.base.host_platform.arch.clone()
        };
        let t = &self.validated_tools;
        let f = &self.cross_flags;
        let mut v: Vec<String> = Vec::new();
        v.push(tool(t, "cc"));
        v.push(tool(t, "cxx"));
        v.push(tool(t, "ar"));
        v.push(tool(t, "strip"));
        v.push(tool(t, "ranlib"));
        v.push(self.base.sysroot.clone());
        v.push(join_strings(&self.pkg_config_paths, ":"));
        v.push(format_meson_args(flag_text(f, "CFLAGS").as_str()));
        v.push(format_meson_args(flag_text(f, "CXXFLAGS").as_str()));
        v.push(format_meson_args(flag_text(f, "LDFLAGS").as_str()));
        v.push(format_meson_args(flag_text(f, "LDFLAGS").as_str()));
        v.push(self.base.host_platform.os.clone());
        v.push(family);
        v.push(self.base.host_platform.arch.clone());
        v.push(owned(get_endianness(self.base.host_platform.arch.as_str())));
        assert(string_views(v@) =~= meson_cross_values(*self));
        crate::text::fill_template(&pieces, &v)
    }

    /// The text of the Cargo configuration.
    pub fn cargo_config_content(&self) -> (r: String)
        requires
            self.validated_tools.wf(),
            self.validated_tools@.contains_key("cc"@),
            self.validated_tools@.contains_key("ar"@),
        ensures
            r@ == crate::text::fill(cargo_config_pieces(), cargo_config_values(*self)),
    {
        let pieces: Vec<&str> = vec![
            "# Cargo configuration for cross-compilation\n# Generated by sps2\n\n[target.",
            "]\nlinker = \"",
            "\"\nar = \"",
            "\"\nrustflags = [\"-C\", \"link-arg=--sysroot=",
            "\", \"-C\", \"target-feature=+crt-static\"]\n\n[env]\nCARGO_TARGET_DIR = \"target/",
            "\"\n",
        ];
        assert(pieces@.map_values(|p: &str| p@) =~= cargo_config_pieces());
        let target = self.base.host_platform.triple();
        let mut v: Vec<String> = Vec::new();
        v.push(target.clone());
        v.push(tool(&self.validated_tools, "cc"));
        v.push(tool(&self.validated_tools, "ar"));
        v.push(self.base.sysroot.clone());
        v.push(target);
        assert(string_views(v@) =~= cargo_config_values(*self));
        crate::text::fill_template(&pieces, &v)
    }
}

/// The compilers a toolchain is looked for by, in order: for each prefix of
/// `toolchain_prefixes_of`, its `gcc`, then its `clang`.
pub open spec fn compiler_candidates(p: Platform) -> Seq<Seq<char>> {
    let ps = toolchain_prefixes_of(p);
    Seq::new(2 * ps.len(), |i: int| ps[i / 2] + if i % 2 == 0 { "gcc"@ } else { "clang"@ })
}

/// The compilers to look for, in the order they are tried.
pub fn toolchain_candidates(platform: &Platform) -> (r: Vec<String>)
    ensures
        string_views(r@) == compiler_candidates(*platform),
{
    let ps = toolchain_prefixes(platform);
    let ghost pv = string_views(ps@);
    let mut r: Vec<String> = Vec::new();
    for i in 0..ps.len()
        invariant
            pv == string_views(ps@),
            pv == toolchain_prefixes_of(*platform),
            string_views(r@) =~= Seq::new(2 * i as nat, |k: int| pv[k / 2] + if k % 2 == 0 { "gcc"@ } else { "clang"@ }),
    {
        let ghost prev = string_views(r@);
        let ghost ii = i as int;
        assert(prev.len() == 2 * ii);
        let ghost old_r = r@;
        let a = concat(ps[i].as_str(), "gcc");
        let b = concat(ps[i].as_str(), "clang");
        r.push(a);
        r.push(b);
        proof {
            assert(r@ == old_r.push(a).push(b));
            assert(string_views(r@) =~= prev.push(a@).push(b@));
            let target = Seq::new(2 * (i + 1) as nat, |k: int| pv[k / 2] + if k % 2 == 0 { "gcc"@ } else { "clang"@ });
            assert(string_views(r@).len() == 2 * ii + 2);
            assert forall|k: int| 0 <= k < 2 * ii + 2 implies #[trigger] string_views(r@)[k] == target[k] by {
                if k < 2 * ii {
                    assert(string_views(r@)[k] == prev[k]);
                } else if k == 2 * ii {
                    assert(k / 2 == ii && k % 2 == 0) by (nonlinear_arith)
                        requires
                            k == 2 * ii,
                    ;
                    assert(string_views(r@)[k] == ps@[ii]@ + "gcc"@);
                } else {
                    assert(k / 2 == ii && k % 2 == 1) by (nonlinear_arith)
                        requires
                            k == 2 * ii + 1,
                    ;
                    assert(string_views(r@)[k] == ps@[ii]@ + "clang"@);
                }
            }
            assert(string_views(r@) =~= target);
        }
    }
    r
}

/// The first index from `k` on at which `found` holds.
pub open spec fn first_found_from(found: Seq<bool>, k: int) -> Option<int>
    decreases found.len() - k,
{
    if k < 0 || k >= found.len() {
        None
    } else if found[k] {
        Some(k)
    } else {
        first_found_from(found, k + 1)
    }
}

/// The tools of the toolchain under a prefix, GCC and binutils or Clang and
/// LLVM, with its files in the sysroot.
pub open spec fn is_toolchain(t: Toolchain, prefix: Seq<char>, clang: bool, sysroot: Seq<char>) -> bool {
    &&& t.cc@ == prefix + (if clang { "clang"@ } else { "gcc"@ })
    &&& t.cxx@ == prefix + (if clang { "clang++"@ } else { "g++"@ })
    &&& t.ar@ == prefix + (if clang { "llvm-ar"@ } else { "ar"@ })
    &&& t.strip@ == prefix + (if clang { "llvm-strip"@ } else { "strip"@ })
    &&& t.ranlib@ == prefix + (if clang { "llvm-ranlib"@ } else { "ranlib"@ })
    &&& t.cmake_toolchain_file@ == crate::paths::path_join(sysroot, "toolchain.cmake"@)
    &&& t.meson_cross_file@ == crate::paths::path_join(sysroot, "cross-file.ini"@)
}

/// The toolchain of a platform, given which of its candidate compilers (in
/// the order of `toolchain_candidates`) were found: the first one found
/// decides the prefix and the compiler family; an error where none was.
/// Results past the candidates are ignored.
pub fn select_toolchain(platform: &Platform, sysroot: &str, found: &Vec<bool>) -> (r: Result<Toolchain, BuildError>)
    ensures
        ({
            let n = compiler_candidates(*platform).len();
            let f = if found@.len() <= n { found@ } else { found@.take(n as int) };
            match first_found_from(f, 0) {
                Some(i) => r matches Ok(t) && is_toolchain(t, toolchain_prefixes_of(*platform)[i / 2], i % 2 == 1, sysroot@),
                None => r matches Err(BuildError::Failed { message }) && message@ == "No suitable toolchain found for "@
                    + platform.triple_spec(),
            }
        }),
{
    let ps = toolchain_prefixes(platform);
    let ghost n = compiler_candidates(*platform).len();
    let ghost f = if found@.len() <= n { found@ } else { found@.take(n as int) };
    let m: usize = if found.len() <= 2 * ps.len() { found.len() } else { 2 * ps.len() };
    let mut i: usize = 0;
    assert(f.len() == m);
    while i < m
        invariant
            string_views(ps@) == toolchain_prefixes_of(*platform),
            n == 2 * ps@.len(),
            f == (if found@.len() <= n { found@ } else { found@.take(n as int) }),
            m == f.len(),
            i <= m,
            m <= found@.len(),
            forall|k: int| 0 <= k < m ==> f[k] == found@[k],
            first_found_from(f, 0) == first_found_from(f, i as int),
        decreases m - i,
    {
        if found[i] {
            assert(f[i as int]);
            let t = toolchain_with_prefix(ps[i / 2].as_str(), i % 2 == 1, sysroot);
            return Ok(t);
        }
        i = i + 1;
    }
    let tr = platform.triple();
    Err(BuildError::Failed { message: concat("No suitable toolchain found for ", tr.as_str()) })
}

} // verus!
