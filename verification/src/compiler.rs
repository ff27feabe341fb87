//! The script compiler boundary: assembling source text and reading the
//! exported procedure commitments back.
//!
//! The assembler itself is an outside collaborator: [`create_library`]
//! drives it behind a trusted wrapper and hands back an opaque compiled
//! library with a stable digest per export. Access control builds on those
//! digests: protecting a procedure means putting its commitment into an
//! account's protected list, which the executor's authorization gate
//! enforces. The lookups below turn a stable procedure name into the digest
//! to protect, resolved once when the account is assembled rather than
//! string-matched at run time — against the assembler's own library through
//! [`library_procedure_digest`], or against the engine's plain
//! [`CompiledLibrary`] table through [`get_protected_procedure_digest`].
use vstd::prelude::*;
use crate::seq_find::{find_first, find_idx, lemma_find_idx};
use crate::types::{EngineError, Word4};

verus! {

#[verifier::external_type_specification]
#[verifier::external_body]
pub struct ExLibrary(miden_assembly::Library);

/// The procedure digests an assembled library serves by qualified name, as
/// four field elements each: the name under which its lookup resolves a
/// procedure maps to that procedure's commitment.
pub uninterp spec fn library_exports(lib: miden_assembly::Library) -> Map<
    Seq<char>,
    (u64, u64, u64, u64),
>;

/// Whether the assembler turns this path and source text into a library:
/// the path parses as a library path, and the source parses and assembles
/// as one library module under it. Parsing and assembling depend on the
/// path and the source alone.
pub uninterp spec fn masm_assembles(path: Seq<char>, source: Seq<char>) -> bool;

/// The export table of the library assembled from this path and source —
/// each exported procedure's qualified name mapped to its commitment. The
/// commitments are content digests of the assembled procedures, so they too
/// depend on the path and the source alone.
pub uninterp spec fn masm_exports_of(path: Seq<char>, source: Seq<char>) -> Map<
    Seq<char>,
    (u64, u64, u64, u64),
>;

/// Relies on miden_assembly's module parser and assembler: parses the
/// source text as a library module under the given path and assembles it.
/// Both are pure functions of the path and the source — the default
/// assembler carries no other input — so success and the resulting export
/// table are named over the two arguments; on failure the assembler's
/// message is returned.
#[verifier::external_body]
fn assemble_library_text(library_path: &str, source_code: &str) -> (r: Result<
    miden_assembly::Library,
    String,
>)
    ensures
        (r is Ok) == masm_assembles(library_path@, source_code@),
        r is Ok ==> library_exports(r->Ok_0) == masm_exports_of(library_path@, source_code@),
{
    let source_manager = miden_assembly::DefaultSourceManager::default();
    miden_assembly::ParseOptions::new(miden_assembly::ast::ModuleKind::Library, library_path)
        .map_err(|e| format!("{}", e))
        .and_then(|options| {
            miden_assembly::Parse::parse_with_options(source_code, &source_manager, options)
                .map_err(|e| format!("{}", e))
        })
        .and_then(|module| {
            miden_assembly::Assembler::default().assemble_library([module]).map_err(
                |e| format!("{}", e),
            )
        })
}

/// Relies on miden_assembly::Library::get_procedure_root_by_name: the
/// digest of the procedure the library exports under the name, if its
/// lookup resolves one.
#[verifier::external_body]
fn procedure_root_by_name(lib: &miden_assembly::Library, name: &str) -> (r: Option<Word4>)
    ensures
        (r is Some) == library_exports(*lib).contains_key(name@),
        r is Some ==> (r->Some_0.e0, r->Some_0.e1, r->Some_0.e2, r->Some_0.e3) == library_exports(
            *lib,
        )[name@],
{
    match lib.get_procedure_root_by_name(name) {
        Some(w) => Some(
            Word4 { e0: w[0].as_int(), e1: w[1].as_int(), e2: w[2].as_int(), e3: w[3].as_int() },
        ),
        None => None,
    }
}

/// Compiles MASM source text into a library under the given namespace path,
/// through the outside assembler.
///
/// Succeeds exactly when the assembler accepts the path and the source, and
/// the library then serves exactly the export table assembled from them —
/// compiled scripts are opaque blobs with a stable digest, so compiling the
/// same source twice yields the same exports. A rejected path or source is
/// a deterministic `ScriptFailure`.
pub fn create_library(library_path: &str, source_code: &str) -> (r: Result<
    miden_assembly::Library,
    EngineError,
>)
    ensures
        (r is Ok) == masm_assembles(library_path@, source_code@),
        r is Ok ==> library_exports(r->Ok_0) == masm_exports_of(library_path@, source_code@),
        r is Err ==> r->Err_0 == EngineError::ScriptFailure,
{
    match assemble_library_text(library_path, source_code) {
        Ok(lib) => Ok(lib),
        Err(_) => Err(EngineError::ScriptFailure),
    }
}

/// Finds the commitment of the procedure an assembled library exports under
/// `name` — the digest an access-control list protects. Fails with
/// `NotFound` exactly when the library's lookup resolves no procedure under
/// that name.
pub fn library_procedure_digest(lib: &miden_assembly::Library, name: &str) -> (r: Result<
    Word4,
    EngineError,
>)
    ensures
        match r {
            Ok(d) => library_exports(*lib).contains_key(name@) && (d.e0, d.e1, d.e2, d.e3)
                == library_exports(*lib)[name@],
            Err(e) => e == EngineError::NotFound && !library_exports(*lib).contains_key(name@),
        },
{
    match procedure_root_by_name(lib, name) {
        Some(d) => Ok(d),
        None => Err(EngineError::NotFound),
    }
}

/// One exported procedure of a compiled library: its name, as bytes, and the
/// commitment of its code.
pub struct ProcedureExport {
    pub name: Vec<u8>,
    pub digest: Word4,
}

/// Mathematical view of [`ProcedureExport`].
#[verifier::ext_equal]
pub struct ProcedureExportV {
    pub name: Seq<u8>,
    pub digest: Word4,
}

impl View for ProcedureExport {
    type V = ProcedureExportV;

    open spec fn view(&self) -> ProcedureExportV {
        ProcedureExportV { name: self.name@, digest: self.digest }
    }
}

/// A compiled library: its exported procedures, in export order.
pub struct CompiledLibrary {
    pub exports: Vec<ProcedureExport>,
}

/// Mathematical view of [`CompiledLibrary`].
#[verifier::ext_equal]
pub struct CompiledLibraryV {
    pub exports: Seq<ProcedureExportV>,
}

impl View for CompiledLibrary {
    type V = CompiledLibraryV;

    open spec fn view(&self) -> CompiledLibraryV {
        CompiledLibraryV { exports: self.exports@.map_values(|e: ProcedureExport| e@) }
    }
}

/// The exports under a given name.
pub open spec fn by_export_name(name: Seq<u8>) -> spec_fn(ProcedureExportV) -> bool {
    |e: ProcedureExportV| e.name == name
}

/// The digest the library exports under a name, if any.
pub open spec fn spec_export_digest(lib: CompiledLibraryV, name: Seq<u8>) -> Option<Word4> {
    match find_first(lib.exports, by_export_name(name)) {
        Some(e) => Some(e.digest),
        None => None,
    }
}

/// Whether two byte strings are equal.
fn bytes_eq(a: &Vec<u8>, b: &Vec<u8>) -> (r: bool)
    ensures
        r == (a@ == b@),
{
    if a.len() != b.len() {
        proof {
            assert(a@.len() != b@.len());
        }
        return false;
    }
    let mut i: usize = 0;
    while i < a.len()
        invariant
            0 <= i <= a@.len(),
            a@.len() == b@.len(),
            forall|k: int| 0 <= k < i ==> a@[k] == b@[k],
        decreases a@.len() - i,
    {
        if a[i] != b[i] {
            proof {
                assert(a@[i as int] != b@[i as int]);
            }
            return false;
        }
        i = i + 1;
    }
    proof {
        assert(a@ =~= b@);
    }
    true
}

/// Finds the commitment of the procedure exported under `name`, the digest
/// an access-control list protects. Fails with `NotFound` exactly when the
/// library exports no procedure of that name.
pub fn get_protected_procedure_digest(library: &CompiledLibrary, name: &Vec<u8>) -> (r: Result<
    Word4,
    EngineError,
>)
    ensures
        match r {
            Ok(d) => spec_export_digest(library@, name@) == Some(d),
            Err(e) => e == EngineError::NotFound && spec_export_digest(library@, name@) is None,
        },
{
    let ghost p = by_export_name(name@);
    let mut i: usize = 0;
    while i < library.exports.len()
        invariant
            0 <= i <= library.exports@.len(),
            p == by_export_name(name@),
            library@.exports.len() == library.exports@.len(),
            forall|k: int|
                0 <= k < library.exports@.len() ==> #[trigger] library@.exports[k]
                    == library.exports@[k]@,
            forall|k: int| 0 <= k < i ==> !p(#[trigger] library@.exports[k]),
        decreases library.exports@.len() - i,
    {
        if bytes_eq(&library.exports[i].name, name) {
            proof {
                lemma_find_idx(library@.exports, p);
                assert(p(library@.exports[i as int]));
                let fi = find_idx(library@.exports, p);
                if fi == -1 {
                    assert(!p(library@.exports[i as int]));
                    assert(false);
                } else if fi < i as int {
                    assert(!p(library@.exports[fi]));
                    assert(false);
                } else if fi > i as int {
                    assert(!p(library@.exports[i as int]));
                    assert(false);
                }
            }
            return Ok(library.exports[i].digest);
        }
        i = i + 1;
    }
    proof {
        lemma_find_idx(library@.exports, p);
        if find_idx(library@.exports, p) >= 0 {
            assert(p(library@.exports[find_idx(library@.exports, p)]));
            assert(false);
        }
    }
    Err(EngineError::NotFound)
}

} // verus!
