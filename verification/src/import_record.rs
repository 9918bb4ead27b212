//! Import records: what a module requests from another module, how the request was written,
//! and, once resolution is done, which module it resolved to.

use crate::ids::{ModuleIdx, SymbolRef};
use vstd::prelude::*;
use vstd::string::*;

verus! {

/// The syntactic form of a cross-module reference.
#[derive(Clone, Copy, Debug, PartialEq, Eq, Structural)]
pub enum ImportKind {
    /// A source-level `import` statement.
    Import,
    /// An `import()` expression.
    DynamicImport,
    /// A `require()` call.
    Require,
}

/// The text handed to [`ImportKind::try_from`] named no import kind.
#[derive(Debug, PartialEq, Eq)]
pub struct InvalidImportKind {
    /// The offending text, unchanged.
    pub text: String,
}

/// What `{:?}` prints for a string slice: the text in double quotes with its escapes.
pub uninterp spec fn debug_quoted(text: Seq<char>) -> Seq<char>;

/// `format!("{:?}", text)` of std: the result is the `Debug` rendering of the slice, which
/// depends on the characters of `text` alone.
#[verifier::external_body]
fn debug_quote(text: &str) -> (quoted: String)
    ensures
        quoted@ == debug_quoted(text@),
{
    format!("{:?}", text)
}

/// The kind that a discriminator text names, if any.
pub open spec fn parse_import_kind(text: Seq<char>) -> Option<ImportKind> {
    if text == "import"@ {
        Some(ImportKind::Import)
    } else if text == "dynamic-import"@ {
        Some(ImportKind::DynamicImport)
    } else if text == "require-call"@ {
        Some(ImportKind::Require)
    } else {
        None
    }
}

/// The display text of a kind.
pub open spec fn import_kind_text(kind: ImportKind) -> Seq<char> {
    match kind {
        ImportKind::Import => "import-statement"@,
        ImportKind::DynamicImport => "dynamic-import"@,
        ImportKind::Require => "require-call"@,
    }
}

impl ImportKind {
    /// Static kinds are resolved at build time and can be hoisted; `import()` cannot.
    pub open spec fn spec_is_static(&self) -> bool {
        self is Import || self is Require
    }

    #[verifier::when_used_as_spec(spec_is_static)]
    pub fn is_static(&self) -> (r: bool)
        ensures
            r == self.spec_is_static(),
    {
        matches!(self, Self::Import | Self::Require)
    }

    /// Reads a kind from its discriminator text: `import`, `dynamic-import` or
    /// `require-call`. Any other text is rejected and handed back in the error.
    pub fn try_from(value: &str) -> (r: Result<ImportKind, InvalidImportKind>)
        ensures
            match r {
                Ok(kind) => parse_import_kind(value@) == Some(kind),
                Err(e) => parse_import_kind(value@) is None && e.text@ == value@,
            },
    {
        if value.eq("import") {
            Ok(ImportKind::Import)
        } else if value.eq("dynamic-import") {
            Ok(ImportKind::DynamicImport)
        } else if value.eq("require-call") {
            Ok(ImportKind::Require)
        } else {
            Err(InvalidImportKind { text: value.to_owned() })
        }
    }

    /// The display text of the kind.
    pub fn to_string(&self) -> (text: String)
        ensures
            text@ == import_kind_text(*self),
    {
        match self {
            Self::Import => "import-statement".to_owned(),
            Self::DynamicImport => "dynamic-import".to_owned(),
            Self::Require => "require-call".to_owned(),
        }
    }
}

/// The diagnostic line for a rejected text, given the text in quotes.
pub fn invalid_import_kind_line(quoted: &str) -> (line: String)
    ensures
        line@ == "Invalid import kind: "@ + quoted@,
{
    let mut line = "Invalid import kind: ".to_owned();
    line.append(quoted);
    line
}

impl InvalidImportKind {
    /// The diagnostic line for the rejected text.
    pub open spec fn spec_message(self) -> Seq<char> {
        "Invalid import kind: "@ + debug_quoted(self.text@)
    }

    /// The diagnostic line for the rejected text: a fixed prefix, then the text as `{:?}`
    /// prints it.
    pub fn message(&self) -> (line: String)
        ensures
            line@ == self.spec_message(),
    {
        let quoted = debug_quote(self.text.as_str());
        invalid_import_kind_line(quoted.as_str())
    }
}

/// Flag: the record is `import * as ns from '...'` or `export * as ns from '...'`.
pub const CONTAINS_IMPORT_STAR: u8 = 1;

/// Flag: the record imports the default binding.
pub const CONTAINS_IMPORT_DEFAULT: u8 = 2;

/// Flag: the record is `import {} from '...'` or `import '...'`.
pub const IS_PLAIN_IMPORT: u8 = 4;

/// The two flags that say the record imports a binding: [`CONTAINS_IMPORT_STAR`] and
/// [`CONTAINS_IMPORT_DEFAULT`].
pub const CONTAINS_DEFAULT_OR_STAR: u8 = 3;

/// Every bit that names a flag.
pub const ALL_FLAGS: u8 = 7;

/// A set of facts about one import site, kept as bits. A plain import carries no binding,
/// so the plain flag never stands together with the star or the default flag; every
/// operation keeps it so.
#[derive(Clone, Copy, Debug, PartialEq, Eq, Structural)]
pub struct ImportRecordMeta {
    bits: u8,
}

/// Whether `bits` is a set of flags in which plain excludes star and default.
pub open spec fn valid_flag_bits(bits: u8) -> bool {
    &&& bits & ALL_FLAGS == bits
    &&& bits & IS_PLAIN_IMPORT == IS_PLAIN_IMPORT ==> bits & CONTAINS_IMPORT_STAR
        != CONTAINS_IMPORT_STAR && bits & CONTAINS_IMPORT_DEFAULT != CONTAINS_IMPORT_DEFAULT
}

impl ImportRecordMeta {
    /// The raw bits.
    pub closed spec fn spec_bits(self) -> u8 {
        self.bits
    }

    /// Whether every bit of `mask` is set.
    pub open spec fn has_all(self, mask: u8) -> bool {
        self.spec_bits() & mask == mask
    }

    /// Whether the star or the default flag is set.
    pub open spec fn has_binding(self) -> bool {
        self.has_all(CONTAINS_IMPORT_STAR) || self.has_all(CONTAINS_IMPORT_DEFAULT)
    }

    /// Only flags are set, and the plain flag excludes the star and the default flag.
    #[verifier::type_invariant]
    pub open spec fn wf(self) -> bool {
        valid_flag_bits(self.spec_bits())
    }

    /// The set without any flag.
    pub fn empty() -> (meta: Self)
        ensures
            meta.spec_bits() == 0,
            !meta.has_all(CONTAINS_IMPORT_STAR),
            !meta.has_all(CONTAINS_IMPORT_DEFAULT),
            !meta.has_all(IS_PLAIN_IMPORT),
            meta.wf(),
    {
        assert(0u8 & 1u8 != 1u8 && 0u8 & 2u8 != 2u8 && 0u8 & 4u8 != 4u8 && 0u8 & 7u8 == 0u8)
            by (bit_vector);
        Self { bits: 0 }
    }

    /// The set with exactly the flags of `bits`. There is none where `bits` holds a bit
    /// that names no flag, or the plain flag together with the star or the default flag.
    pub fn from_bits(bits: u8) -> (meta: Option<Self>)
        ensures
            match meta {
                Some(set) => valid_flag_bits(bits) && set.spec_bits() == bits && set.wf(),
                None => !valid_flag_bits(bits),
            },
    {
        assert(valid_flag_bits(bits) == (bits <= 4u8)) by (bit_vector);
        if bits <= IS_PLAIN_IMPORT {
            Some(Self { bits })
        } else {
            None
        }
    }

    /// The raw bits.
    pub fn bits(&self) -> (bits: u8)
        ensures
            bits == self.spec_bits(),
            valid_flag_bits(bits),
    {
        proof {
            use_type_invariant(self);
        }
        self.bits
    }

    /// Whether every flag of `other` is in `self`.
    pub fn contains(&self, other: Self) -> (r: bool)
        ensures
            r == self.has_all(other.spec_bits()),
    {
        self.bits & other.bits == other.bits
    }

    /// Whether the record imports no binding at all.
    pub fn is_plain_import(&self) -> (r: bool)
        ensures
            r == self.has_all(IS_PLAIN_IMPORT),
    {
        self.bits & IS_PLAIN_IMPORT == IS_PLAIN_IMPORT
    }

    /// Whether the record imports the whole namespace.
    pub fn contains_import_star(&self) -> (r: bool)
        ensures
            r == self.has_all(CONTAINS_IMPORT_STAR),
    {
        self.bits & CONTAINS_IMPORT_STAR == CONTAINS_IMPORT_STAR
    }

    /// Alias of [`Self::contains_import_star`].
    pub fn contains_import_start(&self) -> (r: bool)
        ensures
            r == self.has_all(CONTAINS_IMPORT_STAR),
    {
        self.contains_import_star()
    }

    /// Whether the record imports the default binding.
    pub fn contains_import_default(&self) -> (r: bool)
        ensures
            r == self.has_all(CONTAINS_IMPORT_DEFAULT),
    {
        self.bits & CONTAINS_IMPORT_DEFAULT == CONTAINS_IMPORT_DEFAULT
    }

    /// Whether the record imports the default binding or the whole namespace.
    pub fn contains_import_default_or_star(&self) -> (r: bool)
        ensures
            r == (self.has_all(CONTAINS_IMPORT_STAR) || self.has_all(CONTAINS_IMPORT_DEFAULT)),
    {
        let bits: u8 = self.bits;
        assert((bits & 3u8 != 0u8) == (bits & 1u8 == 1u8 || bits & 2u8 == 2u8)) by (bit_vector);
        self.bits & CONTAINS_DEFAULT_OR_STAR != 0
    }

    /// Marks the record as a plain import. A record that imports a binding is not plain:
    /// it stays as it is.
    pub fn set_plain_import(&mut self)
        ensures
            final(self).spec_bits() == if old(self).has_binding() {
                old(self).spec_bits()
            } else {
                IS_PLAIN_IMPORT
            },
            final(self).has_all(IS_PLAIN_IMPORT) == !old(self).has_binding(),
            final(self).has_all(CONTAINS_IMPORT_STAR) == old(self).has_all(CONTAINS_IMPORT_STAR),
            final(self).has_all(CONTAINS_IMPORT_DEFAULT) == old(self).has_all(
                CONTAINS_IMPORT_DEFAULT,
            ),
            final(self).wf(),
    {
        proof {
            use_type_invariant(&*self);
        }
        let bits: u8 = self.bits;
        assert((bits & 3u8 != 0u8) == (bits & 1u8 == 1u8 || bits & 2u8 == 2u8)) by (bit_vector);
        assert(4u8 & 7u8 == 4u8 && 4u8 & 4u8 == 4u8 && 4u8 & 1u8 != 1u8 && 4u8 & 2u8 != 2u8)
            by (bit_vector);
        assert(bits & 7u8 == bits && (bits & 4u8 == 4u8 ==> bits & 1u8 != 1u8 && bits & 2u8 != 2u8)
            && bits & 3u8 != 0u8 ==> bits & 4u8 != 4u8) by (bit_vector);
        if bits & CONTAINS_DEFAULT_OR_STAR == 0 {
            self.bits = IS_PLAIN_IMPORT;
        }
    }

    /// Marks the record as a namespace import. The default flag stays; the plain flag goes,
    /// since the record now imports a binding.
    pub fn set_contains_import_star(&mut self)
        ensures
            final(self).spec_bits() == (old(self).spec_bits() | CONTAINS_IMPORT_STAR)
                & CONTAINS_DEFAULT_OR_STAR,
            final(self).has_all(CONTAINS_IMPORT_STAR),
            final(self).has_all(CONTAINS_IMPORT_DEFAULT) == old(self).has_all(
                CONTAINS_IMPORT_DEFAULT,
            ),
            !final(self).has_all(IS_PLAIN_IMPORT),
            final(self).wf(),
    {
        let bits: u8 = self.bits;
        assert({
            let after = (bits | 1u8) & 3u8;
            &&& after & 1u8 == 1u8
            &&& after & 2u8 == bits & 2u8
            &&& after & 4u8 != 4u8
            &&& after & 7u8 == after
        }) by (bit_vector);
        self.bits = (self.bits | CONTAINS_IMPORT_STAR) & CONTAINS_DEFAULT_OR_STAR;
    }

    /// Marks the record as importing the default binding. The star flag stays; the plain
    /// flag goes, since the record now imports a binding.
    pub fn set_contains_import_default(&mut self)
        ensures
            final(self).spec_bits() == (old(self).spec_bits() | CONTAINS_IMPORT_DEFAULT)
                & CONTAINS_DEFAULT_OR_STAR,
            final(self).has_all(CONTAINS_IMPORT_DEFAULT),
            final(self).has_all(CONTAINS_IMPORT_STAR) == old(self).has_all(CONTAINS_IMPORT_STAR),
            !final(self).has_all(IS_PLAIN_IMPORT),
            final(self).wf(),
    {
        let bits: u8 = self.bits;
        assert({
            let after = (bits | 2u8) & 3u8;
            &&& after & 2u8 == 2u8
            &&& after & 1u8 == bits & 1u8
            &&& after & 4u8 != 4u8
            &&& after & 7u8 == after
        }) by (bit_vector);
        self.bits = (self.bits | CONTAINS_IMPORT_DEFAULT) & CONTAINS_DEFAULT_OR_STAR;
    }
}

/// An import site as first analyzed, before its target is known.
#[derive(Debug, PartialEq, Eq)]
pub struct RawImportRecord {
    /// The request as written in the source.
    pub module_request: String,
    pub kind: ImportKind,
    /// The symbol that stands for the whole imported module at this site.
    pub namespace_ref: SymbolRef,
    pub meta: ImportRecordMeta,
}

/// An import site whose target is resolved. Not changed afterwards.
#[derive(Debug, PartialEq, Eq)]
pub struct ImportRecord {
    /// The request as written in the source.
    pub module_request: String,
    pub resolved_module: ModuleIdx,
    pub kind: ImportKind,
    /// The symbol that stands for the whole imported module at this site. For
    /// `import { foo } from './cjs.js'` it names the object that `foo` is read from.
    pub namespace_ref: SymbolRef,
    pub meta: ImportRecordMeta,
}

impl RawImportRecord {
    /// A record for `specifier` with no flag set.
    pub fn new(specifier: String, kind: ImportKind, namespace_ref: SymbolRef) -> (record: Self)
        ensures
            record.module_request == specifier,
            record.kind == kind,
            record.namespace_ref == namespace_ref,
            record.meta.spec_bits() == 0,
            record.meta.wf(),
    {
        Self { module_request: specifier, kind, namespace_ref, meta: ImportRecordMeta::empty() }
    }

    /// The resolved record: every field kept, the target added.
    pub fn into_import_record(self, resolved_module: ModuleIdx) -> (record: ImportRecord)
        ensures
            record.module_request == self.module_request,
            record.resolved_module == resolved_module,
            record.kind == self.kind,
            record.namespace_ref == self.namespace_ref,
            record.meta == self.meta,
    {
        ImportRecord {
            module_request: self.module_request,
            resolved_module,
            kind: self.kind,
            namespace_ref: self.namespace_ref,
            meta: self.meta,
        }
    }
}

} // verus!
