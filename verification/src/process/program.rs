//! What the process reads of programs and their types.

use vstd::prelude::*;

verus! {

/// The type of a plaintext value.
#[derive(Debug)]
pub enum PlaintextType {
    /// A literal type.
    Literal,
    /// A struct of the program itself.
    Struct { name: u64 },
    /// A struct of another program.
    ExternalStruct { program_id: u64, name: u64 },
    /// An array of elements of one type.
    Array { element: Box<PlaintextType> },
}

impl PlaintextType {
    /// The type of the innermost elements of nested arrays; any other type is its own.
    pub open spec fn base(self) -> PlaintextType
        decreases self,
    {
        match self {
            PlaintextType::Array { element } => element.base(),
            _ => self,
        }
    }

    /// Returns the type of the innermost elements of nested arrays.
    pub fn base_element_type(&self) -> (base: &PlaintextType)
        ensures
            *base == self.base(),
            !(*base is Array),
        decreases self,
    {
        match self {
            PlaintextType::Array { element } => element.base_element_type(),
            _ => self,
        }
    }
}

/// A mapping of a program: the types of its keys and of its values.
#[derive(Debug)]
pub struct Mapping {
    pub name: u64,
    pub key: PlaintextType,
    pub value: PlaintextType,
}

/// A program.
#[derive(Debug)]
pub struct Program {
    /// The program ID.
    pub id: u64,
    /// The IDs of the programs that it imports directly, in order.
    pub imports: Vec<u64>,
    /// The names of its structs.
    pub structs: Vec<u64>,
    /// Its mappings, in order.
    pub mappings: Vec<Mapping>,
}

impl Program {
    /// The program defines a struct of this name.
    pub open spec fn defines_struct(self, name: u64) -> bool {
        self.structs@.contains(name)
    }

    /// Returns `true` when the program defines a struct of this name.
    pub fn has_struct(&self, name: u64) -> (defined: bool)
        ensures
            defined == self.defines_struct(name),
    {
        let mut i: usize = 0;
        while i < self.structs.len()
            invariant
                i <= self.structs@.len(),
                forall|j: int| 0 <= j < i ==> self.structs@[j] != name,
            decreases self.structs@.len() - i,
        {
            if self.structs[i] == name {
                return true;
            }
            i = i + 1;
        }
        false
    }
}

/// A program as the process holds it, with its edition.
#[derive(Debug)]
pub struct Stack {
    pub program: Program,
    pub edition: u16,
}

impl Stack {
    /// Returns the program ID.
    pub fn program_id(&self) -> (id: u64)
        ensures
            id == self.program.id,
    {
        self.program.id
    }

    /// Returns the program.
    pub fn program(&self) -> (program: &Program)
        ensures
            *program == self.program,
    {
        &self.program
    }

    /// Returns the edition of the program.
    pub fn program_edition(&self) -> (edition: u16)
        ensures
            edition == self.edition,
    {
        self.edition
    }
}

} // verus!
