//! The chips and the value types that harnesses exercise, by the names that harness
//! names use.

use vstd::prelude::*;

verus! {

/// The type of the values that a harness works on.
#[derive(Copy, Clone, PartialEq, Eq, Structural, PartialOrd, Ord, Debug)]
pub enum Type {
    Native,
    Bit,
    Field,
    Byte,
    Biguint,
    Scalar,
    Point,
}

impl Type {
    /// The name of the type in harness names.
    pub open spec fn spec_name(self) -> Seq<char> {
        match self {
            Type::Native => "native"@,
            Type::Bit => "bit"@,
            Type::Field => "field"@,
            Type::Byte => "byte"@,
            Type::Biguint => "biguint"@,
            Type::Scalar => "scalar"@,
            Type::Point => "point"@,
        }
    }

    /// The name of the type in harness names.
    pub fn name(&self) -> (r: &'static str)
        ensures
            r@ == self.spec_name(),
    {
        match self {
            Type::Native => "native",
            Type::Bit => "bit",
            Type::Field => "field",
            Type::Byte => "byte",
            Type::Biguint => "biguint",
            Type::Scalar => "scalar",
            Type::Point => "point",
        }
    }
}

/// The chip that a harness exercises.
#[derive(Copy, Clone, PartialEq, Eq, Structural, PartialOrd, Ord, Debug)]
pub enum Chip {
    Native,
    NativeGadget,
    Field,
    Poseidon,
    Pow2Range,
    P2RDecomposition,
    Sha256,
    Ecc,
    ForeignEccNative,
    ForeignEccField,
    Vector,
    Biguint,
    Stdlib,
    Automaton,
    Base64,
    HashToCurve,
    MapGadget,
    Parser,
    VarlenPoseidon,
    VarlenSha256,
    RipeMd160,
}

impl Chip {
    /// Whether the chip's name has two spellings: with hyphens, and with underscores in
    /// the alternate form.
    pub open spec fn has_alternate(self) -> bool {
        match self {
            Chip::NativeGadget | Chip::P2RDecomposition | Chip::ForeignEccNative
            | Chip::ForeignEccField | Chip::HashToCurve | Chip::VarlenPoseidon
            | Chip::VarlenSha256 => true,
            _ => false,
        }
    }

    /// The name of the chip; `alternate` selects the spelling with underscores.
    pub open spec fn spec_name(self, alternate: bool) -> Seq<char> {
        match self {
            Chip::Native => "native"@,
            Chip::NativeGadget => if alternate {
                "native_gadget"@
            } else {
                "native-gadget"@
            },
            Chip::Field => "field"@,
            Chip::Poseidon => "poseidon"@,
            Chip::Pow2Range => "pow2range"@,
            Chip::P2RDecomposition => if alternate {
                "p2r_decomposition"@
            } else {
                "p2r-decomposition"@
            },
            Chip::Sha256 => "sha256"@,
            Chip::Ecc => "ecc"@,
            Chip::ForeignEccNative => if alternate {
                "foreign_ecc_native"@
            } else {
                "foreign-ecc-native"@
            },
            Chip::ForeignEccField => if alternate {
                "foreign_ecc_field"@
            } else {
                "foreign-ecc-field"@
            },
            Chip::Vector => "vector"@,
            Chip::Biguint => "biguint"@,
            Chip::Stdlib => "stdlib"@,
            Chip::Automaton => "automaton"@,
            Chip::Base64 => "base64"@,
            Chip::HashToCurve => if alternate {
                "hash_to_curve"@
            } else {
                "hash-to-curve"@
            },
            Chip::MapGadget => "map"@,
            Chip::Parser => "parser"@,
            Chip::VarlenPoseidon => if alternate {
                "varlen_poseidon"@
            } else {
                "varlen-poseidon"@
            },
            Chip::VarlenSha256 => if alternate {
                "varlen_sha256"@
            } else {
                "varlen-sha256"@
            },
            Chip::RipeMd160 => "ripemd160"@,
        }
    }

    /// The name of the chip: its words joined with hyphens, or with underscores in the
    /// alternate form; the other chips have one spelling.
    pub fn name(&self, alternate: bool) -> (r: &'static str)
        ensures
            r@ == self.spec_name(alternate),
    {
        match self {
            Chip::Native => "native",
            Chip::NativeGadget => if alternate {
                "native_gadget"
            } else {
                "native-gadget"
            },
            Chip::Field => "field",
            Chip::Poseidon => "poseidon",
            Chip::Pow2Range => "pow2range",
            Chip::P2RDecomposition => if alternate {
                "p2r_decomposition"
            } else {
                "p2r-decomposition"
            },
            Chip::Sha256 => "sha256",
            Chip::Ecc => "ecc",
            Chip::ForeignEccNative => if alternate {
                "foreign_ecc_native"
            } else {
                "foreign-ecc-native"
            },
            Chip::ForeignEccField => if alternate {
                "foreign_ecc_field"
            } else {
                "foreign-ecc-field"
            },
            Chip::Vector => "vector",
            Chip::Biguint => "biguint",
            Chip::Stdlib => "stdlib",
            Chip::Automaton => "automaton",
            Chip::Base64 => "base64",
            Chip::HashToCurve => if alternate {
                "hash_to_curve"
            } else {
                "hash-to-curve"
            },
            Chip::MapGadget => "map",
            Chip::Parser => "parser",
            Chip::VarlenPoseidon => if alternate {
                "varlen_poseidon"
            } else {
                "varlen-poseidon"
            },
            Chip::VarlenSha256 => if alternate {
                "varlen_sha256"
            } else {
                "varlen-sha256"
            },
            Chip::RipeMd160 => "ripemd160",
        }
    }
}


/// The name with each hyphen turned into an underscore.
pub open spec fn dashes_to_underscores(s: Seq<char>) -> Seq<char> {
    s.map_values(|ch: char| if ch == '-' {
        '_'
    } else {
        ch
    })
}

/// Chip names: distinct chips have distinct names in either form; each name is
/// non-empty and holds no upper-case letter; the plain name holds no underscore, and the alternate name is the plain one
/// with its hyphens turned into underscores.
pub proof fn lemma_chip_names(c: Chip, d: Chip, alternate: bool)
    ensures
        c != d ==> c.spec_name(alternate) != d.spec_name(alternate),
        c.spec_name(alternate).len() > 0,
        forall|i: int|
            0 <= i < c.spec_name(alternate).len() ==> !('A' <= #[trigger] c.spec_name(alternate)[i]
                <= 'Z'),
        forall|i: int| 0 <= i < c.spec_name(false).len() ==> c.spec_name(false)[i] != '_',
        c.spec_name(true) == dashes_to_underscores(c.spec_name(false)),
{
    reveal_strlit("native");
    reveal_strlit("native_gadget");
    reveal_strlit("native-gadget");
    reveal_strlit("field");
    reveal_strlit("poseidon");
    reveal_strlit("pow2range");
    reveal_strlit("p2r_decomposition");
    reveal_strlit("p2r-decomposition");
    reveal_strlit("sha256");
    reveal_strlit("ecc");
    reveal_strlit("foreign_ecc_native");
    reveal_strlit("foreign-ecc-native");
    reveal_strlit("foreign_ecc_field");
    reveal_strlit("foreign-ecc-field");
    reveal_strlit("vector");
    reveal_strlit("biguint");
    reveal_strlit("stdlib");
    reveal_strlit("automaton");
    reveal_strlit("base64");
    reveal_strlit("hash_to_curve");
    reveal_strlit("hash-to-curve");
    reveal_strlit("map");
    reveal_strlit("parser");
    reveal_strlit("varlen_poseidon");
    reveal_strlit("varlen-poseidon");
    reveal_strlit("varlen_sha256");
    reveal_strlit("varlen-sha256");
    reveal_strlit("ripemd160");
    assert(c.spec_name(true) =~= dashes_to_underscores(c.spec_name(false)));
    let a = c.spec_name(alternate);
    let b = d.spec_name(alternate);
    if c != d && a == b {
        assert(a.len() == b.len());
        assert(a[0] == b[0]);
        assert(a[1] == b[1]);
        assert(a.len() > 7 ==> a[7] == b[7]);
        assert(a.len() > 12 ==> a[12] == b[12]);
    }
}

} // verus!
