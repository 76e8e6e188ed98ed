use vstd::prelude::*;
use vstd::string::StringExecFns;

verus! {

/// The SHA-256 digest of a text, as 64 lowercase hexadecimal digits.
pub uninterp spec fn sha256_hex(s: Seq<char>) -> Seq<char>;

/// Relies on sha2's `Sha256::digest` over the UTF-8 bytes of `source`, and on
/// generic-array's `LowerHex`, which writes two lowercase digits per byte of
/// the 32-byte digest.
#[verifier::external_body]
fn sha256_of(source: &str) -> (r: String)
    ensures
        r@ == sha256_hex(source@),
        r@.len() == 64,
{
    format!("{:x}", <sha2::Sha256 as sha2::Digest>::digest(source.as_bytes()))
}

/// Where the compile cache keeps the artifacts of one source text.
pub struct CachePaths {
    /// Content hash of the source text: the cache key.
    pub hash: String,
    pub build_dir: String,
    pub source_file: String,
    pub target_lib: String,
    pub lib_path: String,
}

pub open spec fn lib_name(hash: Seq<char>, windows: bool) -> Seq<char> {
    if windows {
        hash + ".dll"@
    } else {
        hash + ".so"@
    }
}

/// The cache layout below directory `exe_dir` for the key `hash`.
pub open spec fn paths_spec(exe_dir: Seq<char>, hash: Seq<char>, windows: bool) -> (
    Seq<char>,
    Seq<char>,
    Seq<char>,
    Seq<char>,
) {
    let build_dir = exe_dir + "/.jit/"@ + hash;
    (
        build_dir,
        build_dir + "/"@ + hash + ".cc"@,
        lib_name(hash, windows),
        build_dir + "/"@ + lib_name(hash, windows),
    )
}

pub open spec fn paths_match(p: &CachePaths, exe_dir: Seq<char>, hash: Seq<char>, windows: bool) -> bool {
    let s = paths_spec(exe_dir, hash, windows);
    &&& p.hash@ == hash
    &&& p.build_dir@ == s.0
    &&& p.source_file@ == s.1
    &&& p.target_lib@ == s.2
    &&& p.lib_path@ == s.3
}

/// Lays out the cache entry of an already computed key.
pub fn paths_for_hash(exe_dir: &str, hash: &str, windows: bool) -> (r: CachePaths)
    ensures
        paths_match(&r, exe_dir@, hash@, windows),
{
    let build_dir = String::from_str(exe_dir).concat("/.jit/").concat(hash);
    let target_lib = if windows {
        String::from_str(hash).concat(".dll")
    } else {
        String::from_str(hash).concat(".so")
    };
    let source_file = build_dir.clone().concat("/").concat(hash).concat(".cc");
    let lib_path = build_dir.clone().concat("/").concat(target_lib.as_str());
    CachePaths { hash: String::from_str(hash), build_dir, source_file, target_lib, lib_path }
}

/// Lays out the cache entry of `source`, keyed by the SHA-256 of its text.
pub fn cache_paths(exe_dir: &str, source: &str, windows: bool) -> (r: CachePaths)
    ensures
        paths_match(&r, exe_dir@, sha256_hex(source@), windows),
        r.hash@.len() == 64,
{
    let hash = sha256_of(source);
    paths_for_hash(exe_dir, hash.as_str(), windows)
}

/// What to do about one compile request.
pub enum CacheAction {
    /// The artifact is cached: load it from this path, compile nothing.
    Load(String),
    /// Write the source to `source_file`, create `build_dir` if needed, and
    /// run the compiler there with `args`; the artifact will be at `lib_path`.
    Compile { build_dir: String, source_file: String, args: Vec<String>, lib_path: String },
}

/// The fixed flag set of the native compiler, then the input and the output.
pub open spec fn compiler_args_spec(source_file: Seq<char>, target_lib: Seq<char>) -> Seq<Seq<char>> {
    seq![
        "-O3"@,
        "-std=c++17"@,
        "-fno-math-errno"@,
        "-fPIC"@,
        "-shared"@,
        source_file,
        "-o"@,
        target_lib,
    ]
}

pub fn compiler_args(source_file: &str, target_lib: &str) -> (r: Vec<String>)
    ensures
        r@.map_values(|s: String| s@) == compiler_args_spec(source_file@, target_lib@),
{
    let mut r = Vec::new();
    r.push(String::from_str("-O3"));
    r.push(String::from_str("-std=c++17"));
    r.push(String::from_str("-fno-math-errno"));
    r.push(String::from_str("-fPIC"));
    r.push(String::from_str("-shared"));
    r.push(String::from_str(source_file));
    r.push(String::from_str("-o"));
    r.push(String::from_str(target_lib));
    assert(r@.map_values(|s: String| s@) =~= compiler_args_spec(source_file@, target_lib@));
    r
}

/// Decides a compile request: a cached artifact is loaded unchanged, and only
/// a missing one is compiled.
pub fn plan_compile(paths: &CachePaths, lib_exists: bool) -> (r: CacheAction)
    ensures
        lib_exists ==> (r matches CacheAction::Load(p) && p@ == paths.lib_path@),
        !lib_exists ==> (r matches CacheAction::Compile { build_dir, source_file, args, lib_path }
            && build_dir@ == paths.build_dir@ && source_file@ == paths.source_file@
            && lib_path@ == paths.lib_path@
            && args@.map_values(|s: String| s@) == compiler_args_spec(
                paths.source_file@,
                paths.target_lib@,
            )),
{
    if lib_exists {
        CacheAction::Load(paths.lib_path.clone())
    } else {
        CacheAction::Compile {
            build_dir: paths.build_dir.clone(),
            source_file: paths.source_file.clone(),
            args: compiler_args(paths.source_file.as_str(), paths.target_lib.as_str()),
            lib_path: paths.lib_path.clone(),
        }
    }
}

/// A failed native compilation, with the compiler's output.
pub struct CompileError {
    pub output: String,
}

/// The result of a compile request once the compiler has run.
pub fn finish_compile(paths: &CachePaths, success: bool, output: String) -> (r: Result<String, CompileError>)
    ensures
        success ==> (r matches Ok(p) && p@ == paths.lib_path@),
        !success ==> (r matches Err(e) && e.output@ == output@),
{
    if success {
        Ok(paths.lib_path.clone())
    } else {
        Err(CompileError { output })
    }
}

} // verus!
