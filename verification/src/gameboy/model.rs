use vstd::prelude::*;
use vstd::string::StringExecFns;
use vstd::string::StringSliceAdditionalSpecFns;

verus! {

/// Revision of a model's system chip.
#[derive(Copy, Clone, Debug, PartialEq, Eq, Structural)]
pub enum Revision {
    Rev0,
    RevA,
    RevB,
    RevC,
    RevD,
    RevE,
}

/// The television standard of a Super Game Boy.
#[derive(Copy, Clone, Debug, PartialEq, Eq, Structural)]
pub enum VideoStandard {
    NTSC,
    PAL,
}

/// A model of the machine.
#[derive(Copy, Clone, Debug, PartialEq, Eq, Structural)]
pub enum Model {
    /// The first Game Boy, the gray brick.
    DMG(Revision),
    /// The Game Boy Color.
    CGB(Revision),
    /// The Super Game Boy cartridge, with its video standard and whether it
    /// sits in a Super Famicom.
    SGB(VideoStandard, bool),
    /// The Super Game Boy 2 cartridge, and whether it sits in a Super
    /// Famicom.
    SGB2(bool),
    /// The Game Boy Pocket and Game Boy Light.
    MGB,
    /// The Game Boy Advance in its compatibility mode.
    AGB,
    /// The Game Boy Player in its compatibility mode.
    GBP,
}

impl Model {
    /// Whether the machine runs at the speed of the first Game Boy, at
    /// which an input has to be held twice as many frames.
    pub open spec fn is_slow(self) -> bool {
        self is DMG || self is MGB || self is SGB || self is SGB2
    }

    /// Whether inputs have to be held twice as long on this model.
    pub fn slow(&self) -> (slow: bool)
        ensures
            slow == self.is_slow(),
    {
        match self {
            Model::DMG(_) | Model::MGB | Model::SGB(_, _) | Model::SGB2(_) => true,
            _ => false,
        }
    }
}

/// The byte `b` with a capital letter of the basic alphabet made small.
pub open spec fn lowered(b: u8) -> u8 {
    if 0x41 <= b <= 0x5A {
        (b + 0x20) as u8
    } else {
        b
    }
}

/// The name of a model as it is looked up: without its hyphens, and in
/// small letters.
pub open spec fn plain_name(s: Seq<u8>) -> Seq<u8>
    decreases s.len(),
{
    if s.len() == 0 {
        s
    } else if s.last() == 0x2D {
        plain_name(s.drop_last())
    } else {
        plain_name(s.drop_last()).push(lowered(s.last()))
    }
}

/// The model with the plain name `name`.
pub open spec fn model_named(name: Seq<u8>) -> Option<Model> {
    if name == seq![0x64u8, 0x6Du8, 0x67u8] || name == seq![0x64u8, 0x6Du8, 0x67u8, 0x62u8] {
        Some(Model::DMG(Revision::RevB))
    } else if name == seq![0x63u8, 0x67u8, 0x62u8, 0x30u8] {
        Some(Model::CGB(Revision::Rev0))
    } else if name == seq![0x63u8, 0x67u8, 0x62u8, 0x61u8] {
        Some(Model::CGB(Revision::RevA))
    } else if name == seq![0x63u8, 0x67u8, 0x62u8, 0x62u8] {
        Some(Model::CGB(Revision::RevB))
    } else if name == seq![0x63u8, 0x67u8, 0x62u8, 0x63u8] {
        Some(Model::CGB(Revision::RevC))
    } else if name == seq![0x63u8, 0x67u8, 0x62u8, 0x64u8] {
        Some(Model::CGB(Revision::RevD))
    } else if name == seq![0x63u8, 0x67u8, 0x62u8] || name == seq![
        0x63u8,
        0x67u8,
        0x62u8,
        0x65u8,
    ] {
        Some(Model::CGB(Revision::RevE))
    } else if name == seq![0x6Du8, 0x67u8, 0x62u8] {
        Some(Model::MGB)
    } else if name == seq![0x61u8, 0x67u8, 0x62u8] {
        Some(Model::AGB)
    } else {
        None
    }
}

fn is_name(name: &Vec<u8>, b0: u8, b1: u8, b2: u8, b3: Option<u8>) -> (same: bool)
    ensures
        same == (name@ == match b3 {
            Some(last) => seq![b0, b1, b2, last],
            None => seq![b0, b1, b2],
        }),
{
    let same = match b3 {
        Some(last) => name.len() == 4 && name[0] == b0 && name[1] == b1 && name[2] == b2 && name[3]
            == last,
        None => name.len() == 3 && name[0] == b0 && name[1] == b1 && name[2] == b2,
    };
    proof {
        let other = match b3 {
            Some(last) => seq![b0, b1, b2, last],
            None => seq![b0, b1, b2],
        };
        if same {
            assert(name@ =~= other);
        } else if name@.len() == other.len() {
            assert(other[0] == b0 && other[1] == b1 && other[2] == b2);
            if b3 is Some {
                assert(other[3] == b3->0);
            }
        }
    }
    same
}

/// Reads the name of a model, such as `DMG-B`, `cgb` or `CGB-E`: hyphens
/// and the case of letters do not count.
pub fn model_value_parser(s: &str) -> (res: Result<Model, String>)
    ensures
        match res {
            Ok(model) => model_named(plain_name(s.spec_bytes())) == Some(model),
            Err(message) => model_named(plain_name(s.spec_bytes())) is None && message@
                == "Invalid model string"@,
        },
{
    let bytes = s.as_bytes();
    let mut name: Vec<u8> = Vec::new();
    let mut i: usize = 0;
    while i < bytes.len()
        invariant
            i <= bytes@.len(),
            name@ == plain_name(bytes@.take(i as int)),
        decreases bytes@.len() - i,
    {
        let b = bytes[i];
        proof {
            let longer = bytes@.take(i + 1);
            assert(longer.drop_last() =~= bytes@.take(i as int));
            assert(longer.last() == b);
        }
        if b != 0x2D {
            if 0x41 <= b && b <= 0x5A {
                name.push(b + 0x20);
            } else {
                name.push(b);
            }
        }
        i = i + 1;
    }
    assert(bytes@.take(i as int) =~= bytes@);
    if is_name(&name, 0x64, 0x6D, 0x67, None) || is_name(&name, 0x64, 0x6D, 0x67, Some(0x62)) {
        Ok(Model::DMG(Revision::RevB))
    } else if is_name(&name, 0x63, 0x67, 0x62, Some(0x30)) {
        Ok(Model::CGB(Revision::Rev0))
    } else if is_name(&name, 0x63, 0x67, 0x62, Some(0x61)) {
        Ok(Model::CGB(Revision::RevA))
    } else if is_name(&name, 0x63, 0x67, 0x62, Some(0x62)) {
        Ok(Model::CGB(Revision::RevB))
    } else if is_name(&name, 0x63, 0x67, 0x62, Some(0x63)) {
        Ok(Model::CGB(Revision::RevC))
    } else if is_name(&name, 0x63, 0x67, 0x62, Some(0x64)) {
        Ok(Model::CGB(Revision::RevD))
    } else if is_name(&name, 0x63, 0x67, 0x62, None) || is_name(&name, 0x63, 0x67, 0x62, Some(0x65)) {
        Ok(Model::CGB(Revision::RevE))
    } else if is_name(&name, 0x6D, 0x67, 0x62, None) {
        Ok(Model::MGB)
    } else if is_name(&name, 0x61, 0x67, 0x62, None) {
        Ok(Model::AGB)
    } else {
        Err(String::from_str("Invalid model string"))
    }
}

} // verus!
