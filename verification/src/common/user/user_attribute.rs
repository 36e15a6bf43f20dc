//! The registry that ties each field of a user to its name on the wire.

use vstd::prelude::*;
use vstd::utf8::encode_utf8;

verus! {

/// The fields of a user that the directory knows. `Unknown` stands for every
/// attribute that the registry does not list.
#[derive(Clone, Copy, Debug, PartialEq, Eq, Structural)]
pub enum UserAttribute {
    Password,
    Mail,
    FirstName,
    LastName,
    Name,
    School,
    Genie,
    Matricule,
    Number,
    Picture,
    Uid,
    MemberOf,
    Unknown,
}

impl UserAttribute {
    /// The name of the attribute on the wire. `Unknown` has the empty name.
    pub open spec fn wire_name(self) -> Seq<char> {
        match self {
            UserAttribute::Password => "userPassword"@,
            UserAttribute::Mail => "mail"@,
            UserAttribute::FirstName => "givenName"@,
            UserAttribute::Name => "cn"@,
            UserAttribute::LastName => "sn"@,
            UserAttribute::School => "departmentNumber"@,
            UserAttribute::Genie => "roomNumber"@,
            UserAttribute::Uid => "uid"@,
            UserAttribute::Matricule => "employeeNumber"@,
            UserAttribute::Number => "telephoneNumber"@,
            UserAttribute::MemberOf => "memberOf"@,
            UserAttribute::Picture => "jpegPhoto"@,
            UserAttribute::Unknown => ""@,
        }
    }

    /// The field that a name on the wire stands for; `Unknown` for a name that
    /// the registry does not list.
    pub open spec fn from_wire(name: Seq<char>) -> UserAttribute {
        if name == "userPassword"@ {
            UserAttribute::Password
        } else if name == "mail"@ {
            UserAttribute::Mail
        } else if name == "givenName"@ {
            UserAttribute::FirstName
        } else if name == "cn"@ {
            UserAttribute::Name
        } else if name == "sn"@ {
            UserAttribute::LastName
        } else if name == "departmentNumber"@ {
            UserAttribute::School
        } else if name == "roomNumber"@ {
            UserAttribute::Genie
        } else if name == "uid"@ {
            UserAttribute::Uid
        } else if name == "employeeNumber"@ {
            UserAttribute::Matricule
        } else if name == "telephoneNumber"@ {
            UserAttribute::Number
        } else if name == "memberOf"@ {
            UserAttribute::MemberOf
        } else if name == "jpegPhoto"@ {
            UserAttribute::Picture
        } else {
            UserAttribute::Unknown
        }
    }

    /// Reads a field from its name on the wire.
    pub fn from_str(s: &str) -> (attribute: UserAttribute)
        ensures
            attribute == UserAttribute::from_wire(s@),
    {
        if s.eq("userPassword") {
            UserAttribute::Password
        } else if s.eq("mail") {
            UserAttribute::Mail
        } else if s.eq("givenName") {
            UserAttribute::FirstName
        } else if s.eq("cn") {
            UserAttribute::Name
        } else if s.eq("sn") {
            UserAttribute::LastName
        } else if s.eq("departmentNumber") {
            UserAttribute::School
        } else if s.eq("roomNumber") {
            UserAttribute::Genie
        } else if s.eq("uid") {
            UserAttribute::Uid
        } else if s.eq("employeeNumber") {
            UserAttribute::Matricule
        } else if s.eq("telephoneNumber") {
            UserAttribute::Number
        } else if s.eq("memberOf") {
            UserAttribute::MemberOf
        } else if s.eq("jpegPhoto") {
            UserAttribute::Picture
        } else {
            UserAttribute::Unknown
        }
    }

    /// The name of the field on the wire.
    pub fn as_str(&self) -> (name: &'static str)
        ensures
            name@ == self.wire_name(),
    {
        match self {
            UserAttribute::Password => "userPassword",
            UserAttribute::Mail => "mail",
            UserAttribute::FirstName => "givenName",
            UserAttribute::Name => "cn",
            UserAttribute::LastName => "sn",
            UserAttribute::School => "departmentNumber",
            UserAttribute::Genie => "roomNumber",
            UserAttribute::Uid => "uid",
            UserAttribute::Matricule => "employeeNumber",
            UserAttribute::Number => "telephoneNumber",
            UserAttribute::MemberOf => "memberOf",
            UserAttribute::Picture => "jpegPhoto",
            UserAttribute::Unknown => "",
        }
    }

    /// The name of the field on the wire, as bytes.
    pub fn as_bytes(&self) -> (name: &'static [u8])
        ensures
            name@ == encode_utf8(self.wire_name()),
    {
        self.as_str().as_bytes()
    }
}

/// Makes the characters of the twelve names known.
pub proof fn lemma_wire_names()
    ensures
        "userPassword"@.len() == 12 && "userPassword"@[0] == 'u',
        "mail"@.len() == 4,
        "givenName"@.len() == 9 && "givenName"@[0] == 'g',
        "cn"@.len() == 2 && "cn"@[0] == 'c',
        "sn"@.len() == 2 && "sn"@[0] == 's',
        "departmentNumber"@.len() == 16,
        "roomNumber"@.len() == 10,
        "uid"@.len() == 3,
        "employeeNumber"@.len() == 14,
        "telephoneNumber"@.len() == 15,
        "memberOf"@.len() == 8,
        "jpegPhoto"@.len() == 9 && "jpegPhoto"@[0] == 'j',
        ""@.len() == 0,
{
    reveal_strlit("userPassword");
    reveal_strlit("mail");
    reveal_strlit("givenName");
    reveal_strlit("cn");
    reveal_strlit("sn");
    reveal_strlit("departmentNumber");
    reveal_strlit("roomNumber");
    reveal_strlit("uid");
    reveal_strlit("employeeNumber");
    reveal_strlit("telephoneNumber");
    reveal_strlit("memberOf");
    reveal_strlit("jpegPhoto");
    reveal_strlit("");
}

/// Parsing the name that a field is written under gives the field back: the
/// one table serves both directions.
pub proof fn lemma_registry_round_trip(attribute: UserAttribute)
    ensures
        UserAttribute::from_wire(attribute.wire_name()) == attribute,
{
    lemma_wire_names();
}

/// A name that the registry lists is the name of the field it stands for,
/// so no two fields share a name.
pub proof fn lemma_registry_names(name: Seq<char>)
    ensures
        UserAttribute::from_wire(name) != UserAttribute::Unknown ==> UserAttribute::from_wire(
            name,
        ).wire_name() == name,
        UserAttribute::from_wire(name) == UserAttribute::Unknown ==> forall|a: UserAttribute|
            a != UserAttribute::Unknown ==> #[trigger] a.wire_name() != name,
{
    lemma_wire_names();
}

} // verus!
