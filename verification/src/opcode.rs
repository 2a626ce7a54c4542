//! The VM opcodes and the value types each of them consumes and
//! produces.

use vstd::prelude::*;

verus! {

/// The value types the VM's opcodes operate on.
#[derive(Clone, Copy, PartialEq, Eq, Debug)]
pub enum Type {
    /// Base field element.
    Base,
    /// Scalar field element.
    Scalar,
    /// Elliptic curve point.
    EcPoint,
    /// Fixed elliptic curve point.
    EcFixedPoint,
    /// Array of Base field elements.
    BaseArray,
    /// Unsigned 32-bit integer.
    Uint32,
    /// Merkle inclusion path.
    MerklePath,
}

/// Opcodes supported by the VM.
#[derive(Clone, Copy, PartialEq, Eq, Debug)]
pub enum Opcode {
    /// Elliptic curve addition.
    EcAdd,
    /// Elliptic curve multiplication.
    EcMul,
    /// Elliptic curve multiplication with a Base field element.
    EcMulBase,
    /// Elliptic curve multiplication with a u64 wrapped in a Scalar element.
    EcMulShort,
    /// Get the x coordinate of an elliptic curve point.
    EcGetX,
    /// Get the y coordinate of an elliptic curve point.
    EcGetY,
    /// Poseidon hash of N elements.
    PoseidonHash,
    /// Calculate merkle root given a position, Merkle path, and an element.
    CalculateMerkleRoot,
    /// Constrain a Base field element to a circuit's public input.
    ConstrainInstance,
    /// Intermediate opcode for the compiler, should never appear in the result.
    Noop,
}

/// The return type(s) of each opcode.
pub open spec fn return_types_of(op: Opcode) -> Seq<Type> {
    match op {
        Opcode::EcAdd => seq![Type::EcPoint],
        Opcode::EcMul => seq![Type::EcPoint],
        Opcode::EcMulBase => seq![Type::EcPoint],
        Opcode::EcMulShort => seq![Type::EcPoint],
        Opcode::EcGetX => seq![Type::Base],
        Opcode::EcGetY => seq![Type::Base],
        Opcode::PoseidonHash => seq![Type::Base],
        Opcode::CalculateMerkleRoot => seq![Type::Base],
        Opcode::ConstrainInstance => Seq::<Type>::empty(),
        Opcode::Noop => Seq::<Type>::empty(),
    }
}

/// The argument type(s) of each opcode.
pub open spec fn argument_types_of(op: Opcode) -> Seq<Type> {
    match op {
        Opcode::EcAdd => seq![Type::EcPoint, Type::EcPoint],
        Opcode::EcMul => seq![Type::Scalar, Type::EcFixedPoint],
        Opcode::EcMulBase => seq![Type::Base, Type::EcFixedPoint],
        Opcode::EcMulShort => seq![Type::Base, Type::EcFixedPoint],
        Opcode::EcGetX => seq![Type::EcPoint],
        Opcode::EcGetY => seq![Type::EcPoint],
        Opcode::PoseidonHash => seq![Type::BaseArray],
        Opcode::CalculateMerkleRoot => seq![Type::Uint32, Type::MerklePath, Type::Base],
        Opcode::ConstrainInstance => seq![Type::Base],
        Opcode::Noop => Seq::<Type>::empty(),
    }
}

fn types0() -> (r: Vec<Type>)
    ensures
        r@ == Seq::<Type>::empty(),
{
    Vec::new()
}

fn types1(a: Type) -> (r: Vec<Type>)
    ensures
        r@ == seq![a],
{
    let mut r: Vec<Type> = Vec::new();
    r.push(a);
    assert(r@ =~= seq![a]);
    r
}

fn types2(a: Type, b: Type) -> (r: Vec<Type>)
    ensures
        r@ == seq![a, b],
{
    let mut r: Vec<Type> = Vec::new();
    r.push(a);
    r.push(b);
    assert(r@ =~= seq![a, b]);
    r
}

fn types3(a: Type, b: Type, c: Type) -> (r: Vec<Type>)
    ensures
        r@ == seq![a, b, c],
{
    let mut r: Vec<Type> = Vec::new();
    r.push(a);
    r.push(b);
    r.push(c);
    assert(r@ =~= seq![a, b, c]);
    r
}

impl Opcode {
    /// Return a tuple of vectors of types that are accepted by a
    /// specific opcode: `r.0` is the return type(s) and `r.1` is the
    /// argument type(s).
    pub fn arg_types(&self) -> (r: (Vec<Type>, Vec<Type>))
        ensures
            r.0@ == return_types_of(*self),
            r.1@ == argument_types_of(*self),
    {
        match *self {
            Opcode::EcAdd => (types1(Type::EcPoint), types2(Type::EcPoint, Type::EcPoint)),
            Opcode::EcMul => (types1(Type::EcPoint), types2(Type::Scalar, Type::EcFixedPoint)),
            Opcode::EcMulBase => (types1(Type::EcPoint), types2(Type::Base, Type::EcFixedPoint)),
            Opcode::EcMulShort => (types1(Type::EcPoint), types2(Type::Base, Type::EcFixedPoint)),
            Opcode::EcGetX => (types1(Type::Base), types1(Type::EcPoint)),
            Opcode::EcGetY => (types1(Type::Base), types1(Type::EcPoint)),
            Opcode::PoseidonHash => (types1(Type::Base), types1(Type::BaseArray)),
            Opcode::CalculateMerkleRoot => (
                types1(Type::Base),
                types3(Type::Uint32, Type::MerklePath, Type::Base),
            ),
            Opcode::ConstrainInstance => (types0(), types1(Type::Base)),
            Opcode::Noop => (types0(), types0()),
        }
    }
}

} // verus!
