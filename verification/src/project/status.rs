//! The closed set of states a file of a working tree can be in.

use vstd::prelude::*;

verus! {

/// The state of one file, as git reports it.
#[derive(Debug, Clone, Copy, PartialEq, Eq, Structural)]
pub enum FileStatus {
    Current,
    IndexNew,
    IndexModified,
    IndexDeleted,
    IndexRenamed,
    IndexTypeChange,
    WorkTreeNew,
    WorkTreeModified,
    WorkTreeDeleted,
    WorkTreeTypeChange,
    WorkTreeRenamed,
    Ignored,
    Conflict,
}

impl FileStatus {
    /// The flag word git uses for this state.
    pub open spec fn bits(self) -> u32 {
        match self {
            FileStatus::Current => 0x0,
            FileStatus::IndexNew => 0x1,
            FileStatus::IndexModified => 0x2,
            FileStatus::IndexDeleted => 0x4,
            FileStatus::IndexRenamed => 0x8,
            FileStatus::IndexTypeChange => 0x10,
            FileStatus::WorkTreeNew => 0x80,
            FileStatus::WorkTreeModified => 0x100,
            FileStatus::WorkTreeDeleted => 0x200,
            FileStatus::WorkTreeTypeChange => 0x400,
            FileStatus::WorkTreeRenamed => 0x800,
            FileStatus::Ignored => 0x4000,
            FileStatus::Conflict => 0x8000,
        }
    }

    /// The state a flag word stands for, if it stands for one.
    pub open spec fn of_bits(bits: u32) -> Option<FileStatus> {
        if bits == 0x0 {
            Some(FileStatus::Current)
        } else if bits == 0x1 {
            Some(FileStatus::IndexNew)
        } else if bits == 0x2 {
            Some(FileStatus::IndexModified)
        } else if bits == 0x4 {
            Some(FileStatus::IndexDeleted)
        } else if bits == 0x8 {
            Some(FileStatus::IndexRenamed)
        } else if bits == 0x10 {
            Some(FileStatus::IndexTypeChange)
        } else if bits == 0x80 {
            Some(FileStatus::WorkTreeNew)
        } else if bits == 0x100 {
            Some(FileStatus::WorkTreeModified)
        } else if bits == 0x200 {
            Some(FileStatus::WorkTreeDeleted)
        } else if bits == 0x400 {
            Some(FileStatus::WorkTreeTypeChange)
        } else if bits == 0x800 {
            Some(FileStatus::WorkTreeRenamed)
        } else if bits == 0x4000 {
            Some(FileStatus::Ignored)
        } else if bits == 0x8000 {
            Some(FileStatus::Conflict)
        } else {
            None
        }
    }

    /// The flag word of this state.
    pub fn to_bits(self) -> (bits: u32)
        ensures
            bits == self.bits(),
    {
        match self {
            FileStatus::Current => 0x0,
            FileStatus::IndexNew => 0x1,
            FileStatus::IndexModified => 0x2,
            FileStatus::IndexDeleted => 0x4,
            FileStatus::IndexRenamed => 0x8,
            FileStatus::IndexTypeChange => 0x10,
            FileStatus::WorkTreeNew => 0x80,
            FileStatus::WorkTreeModified => 0x100,
            FileStatus::WorkTreeDeleted => 0x200,
            FileStatus::WorkTreeTypeChange => 0x400,
            FileStatus::WorkTreeRenamed => 0x800,
            FileStatus::Ignored => 0x4000,
            FileStatus::Conflict => 0x8000,
        }
    }

    /// Reads a flag word: `Some` of the one state with that word, `None` for
    /// a word that is no single state's.
    pub fn from_bits(bits: u32) -> (status: Option<FileStatus>)
        ensures
            status == Self::of_bits(bits),
    {
        if bits == 0x0 {
            Some(FileStatus::Current)
        } else if bits == 0x1 {
            Some(FileStatus::IndexNew)
        } else if bits == 0x2 {
            Some(FileStatus::IndexModified)
        } else if bits == 0x4 {
            Some(FileStatus::IndexDeleted)
        } else if bits == 0x8 {
            Some(FileStatus::IndexRenamed)
        } else if bits == 0x10 {
            Some(FileStatus::IndexTypeChange)
        } else if bits == 0x80 {
            Some(FileStatus::WorkTreeNew)
        } else if bits == 0x100 {
            Some(FileStatus::WorkTreeModified)
        } else if bits == 0x200 {
            Some(FileStatus::WorkTreeDeleted)
        } else if bits == 0x400 {
            Some(FileStatus::WorkTreeTypeChange)
        } else if bits == 0x800 {
            Some(FileStatus::WorkTreeRenamed)
        } else if bits == 0x4000 {
            Some(FileStatus::Ignored)
        } else if bits == 0x8000 {
            Some(FileStatus::Conflict)
        } else {
            None
        }
    }

    /// Reads a flag word that stands for a state. Every other word is a
    /// broken promise of the caller.
    pub fn from(bits: u32) -> (status: FileStatus)
        requires
            Self::of_bits(bits) is Some,
        ensures
            Self::of_bits(bits) == Some(status),
            status.bits() == bits,
    {
        match Self::from_bits(bits) {
            Some(status) => status,
            None => unreached(),
        }
    }

    /// The mapping between flag words and states is one to one: every state
    /// is read back from its own flag word, and from no other word; and a
    /// word is read exactly where it is the flag word of a state.
    pub proof fn lemma_status_mapping_total(status: FileStatus, bits: u32)
        ensures
            Self::of_bits(status.bits()) == Some(status),
            Self::of_bits(bits) == Some(status) <==> bits == status.bits(),
            Self::of_bits(bits) is Some <==> exists|s: FileStatus| s.bits() == bits,
    {
        if Self::of_bits(bits) is Some {
            assert(Self::of_bits(bits).unwrap().bits() == bits);
        }
        if exists|s: FileStatus| s.bits() == bits {
            let s = choose|s: FileStatus| s.bits() == bits;
            assert(Self::of_bits(s.bits()) == Some(s));
        }
    }

    /// No two states share a flag word.
    pub proof fn lemma_bits_injective(a: FileStatus, b: FileStatus)
        ensures
            a.bits() == b.bits() ==> a == b,
    {
    }
}

} // verus!
