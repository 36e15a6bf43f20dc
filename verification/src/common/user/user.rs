//! The record of one user and its parser.

use vstd::prelude::*;
use vstd::string::StrSliceExecFns;
use vstd::utf8::encode_utf8;
use crate::common::entry::{
    attributes, copy_bytes, copy_text, copy_texts, last_named, last_named_binary,
    lemma_last_named_concat, Attribute, AttributeView, BinaryAttributeView, Entry, EntryView,
};
use crate::common::password::password::{verifies, Password};
use crate::text::texts;
use crate::common::user::user_attribute::{lemma_wire_names, UserAttribute};

verus! {

/// One user of the directory. `uid` is the key under which the user is
/// known; `password` holds the stored password record.
#[derive(Debug)]
pub struct User {
    pub uid: String,
    pub password: String,
    pub mail: String,
    pub first_name: String,
    pub last_name: String,
    pub name: String,
    pub school: String,
    pub genie: String,
    pub matricule: String,
    pub number: String,
    pub picture: Option<Vec<u8>>,
    pub member: Option<Vec<String>>,
}

pub struct UserView {
    pub uid: Seq<char>,
    pub password: Seq<char>,
    pub mail: Seq<char>,
    pub first_name: Seq<char>,
    pub last_name: Seq<char>,
    pub name: Seq<char>,
    pub school: Seq<char>,
    pub genie: Seq<char>,
    pub matricule: Seq<char>,
    pub number: Seq<char>,
    pub picture: Option<Seq<u8>>,
    pub member: Option<Seq<Seq<char>>>,
}

impl View for User {
    type V = UserView;

    open spec fn view(&self) -> UserView {
        UserView {
            uid: self.uid@,
            password: self.password@,
            mail: self.mail@,
            first_name: self.first_name@,
            last_name: self.last_name@,
            name: self.name@,
            school: self.school@,
            genie: self.genie@,
            matricule: self.matricule@,
            number: self.number@,
            picture: match self.picture {
                Some(p) => Some(p@),
                None => None,
            },
            member: match self.member {
                Some(m) => Some(texts(m@)),
                None => None,
            },
        }
    }
}

impl UserView {
    /// The text that the record holds for a field; the empty text for a
    /// field that is not a text.
    pub open spec fn text(self, attribute: UserAttribute) -> Seq<char> {
        match attribute {
            UserAttribute::Password => self.password,
            UserAttribute::Mail => self.mail,
            UserAttribute::FirstName => self.first_name,
            UserAttribute::LastName => self.last_name,
            UserAttribute::Name => self.name,
            UserAttribute::School => self.school,
            UserAttribute::Genie => self.genie,
            UserAttribute::Uid => self.uid,
            UserAttribute::Matricule => self.matricule,
            UserAttribute::Number => self.number,
            _ => Seq::empty(),
        }
    }
}

/// The text of a field as the first `upto` attributes give it: the first
/// value of the last of them that is written under the field's name and
/// has a value; the empty text where there is none.
pub open spec fn text_upto(attrs: Seq<AttributeView>, attribute: UserAttribute, upto: int) -> Seq<
    char,
> {
    match last_named(attrs, attribute.wire_name(), true, upto) {
        Some(values) => values[0],
        None => Seq::empty(),
    }
}

/// The picture as the first `upto` text attributes give it: the bytes of the
/// first value.
pub open spec fn text_picture_upto(attrs: Seq<AttributeView>, upto: int) -> Option<Seq<u8>> {
    match last_named(attrs, UserAttribute::Picture.wire_name(), true, upto) {
        Some(values) => Some(encode_utf8(values[0])),
        None => None,
    }
}

/// The picture of an entry: the first binary value where there is one, else
/// the bytes of the first text value.
pub open spec fn picture_upto(
    attrs: Seq<AttributeView>,
    bin_attrs: Seq<BinaryAttributeView>,
    upto: int,
) -> Option<Seq<u8>> {
    match last_named_binary(bin_attrs, UserAttribute::Picture.wire_name(), upto) {
        Some(values) => Some(values[0]),
        None => text_picture_upto(attrs, attrs.len() as int),
    }
}

/// The user that an entry describes. Each text field is the first value of
/// its attribute; the group memberships are all values of theirs; the
/// picture is the binary value where the entry has both kinds. Attributes
/// that the registry does not list are passed over.
pub open spec fn parsed_user(entry: EntryView) -> UserView {
    let n = entry.attrs.len() as int;
    UserView {
        uid: text_upto(entry.attrs, UserAttribute::Uid, n),
        password: text_upto(entry.attrs, UserAttribute::Password, n),
        mail: text_upto(entry.attrs, UserAttribute::Mail, n),
        first_name: text_upto(entry.attrs, UserAttribute::FirstName, n),
        last_name: text_upto(entry.attrs, UserAttribute::LastName, n),
        name: text_upto(entry.attrs, UserAttribute::Name, n),
        school: text_upto(entry.attrs, UserAttribute::School, n),
        genie: text_upto(entry.attrs, UserAttribute::Genie, n),
        matricule: text_upto(entry.attrs, UserAttribute::Matricule, n),
        number: text_upto(entry.attrs, UserAttribute::Number, n),
        picture: picture_upto(entry.attrs, entry.bin_attrs, entry.bin_attrs.len() as int),
        member: last_named(entry.attrs, UserAttribute::MemberOf.wire_name(), false, n),
    }
}

/// The attribute that an add request carries for a text: none for the empty
/// text, else the one value under the name.
pub open spec fn text_attribute(name: Seq<char>, value: Seq<char>) -> Seq<AttributeView> {
    if value.len() == 0 {
        Seq::empty()
    } else {
        seq![AttributeView { name: name, values: seq![value] }]
    }
}

/// The attributes of the request that adds a user: every text field that is
/// not empty, under its name on the wire, and the object class of a person.
pub open spec fn add_attributes(user: UserView) -> Seq<AttributeView> {
    text_attribute(UserAttribute::Password.wire_name(), user.password) + text_attribute(
        UserAttribute::Mail.wire_name(),
        user.mail,
    ) + text_attribute(UserAttribute::FirstName.wire_name(), user.first_name) + text_attribute(
        UserAttribute::LastName.wire_name(),
        user.last_name,
    ) + text_attribute(UserAttribute::Name.wire_name(), user.name) + text_attribute(
        UserAttribute::School.wire_name(),
        user.school,
    ) + text_attribute(UserAttribute::Genie.wire_name(), user.genie) + text_attribute(
        UserAttribute::Uid.wire_name(),
        user.uid,
    ) + text_attribute(UserAttribute::Matricule.wire_name(), user.matricule) + text_attribute(
        UserAttribute::Number.wire_name(),
        user.number,
    ) + seq![AttributeView { name: "objectClass"@, values: seq!["inetOrgPerson"@] }]
}

/// Appends the attribute of one text field to an add request.
fn push_text_attribute(out: &mut Vec<Attribute>, name: &str, value: &String)
    ensures
        attributes(final(out)@) == attributes(old(out)@) + text_attribute(name@, value@),
{
    if value.as_str().is_empty() {
        assert(attributes(out@) + text_attribute(name@, value@) =~= attributes(out@));
    } else {
        let ghost before = out@;
        let values: Vec<String> = vec![copy_text(value)];
        let attribute = Attribute { name: name.to_owned(), values };
        assert(attribute@.values =~= seq![value@]);
        out.push(attribute);
        assert(attributes(out@) =~= attributes(before) + text_attribute(name@, value@));
    }
}

impl Clone for User {
    fn clone(&self) -> (copy: Self)
        ensures
            copy@ == self@,
    {
        User {
            uid: self.uid.clone(),
            password: self.password.clone(),
            mail: self.mail.clone(),
            first_name: self.first_name.clone(),
            last_name: self.last_name.clone(),
            name: self.name.clone(),
            school: self.school.clone(),
            genie: self.genie.clone(),
            matricule: self.matricule.clone(),
            number: self.number.clone(),
            picture: match &self.picture {
                Some(p) => Some(copy_bytes(p)),
                None => None,
            },
            member: match &self.member {
                Some(m) => Some(copy_texts(m)),
                None => None,
            },
        }
    }
}

impl crate::common::store::Keyed for User {
    open spec fn key_of(record: UserView) -> Seq<char> {
        record.uid
    }

    open spec fn sound(&self) -> bool {
        true
    }

    fn key(&self) -> (key: &String) {
        &self.uid
    }

    fn duplicate(&self) -> (copy: Self) {
        self.clone()
    }
}

impl User {
    /// Reads a user from a directory entry.
    pub fn new(entry: Entry) -> (user: User)
        ensures
            user@ == parsed_user(entry@),
    {
        User::from_entry(&entry)
    }

    /// Reads a user from a directory entry that stays with the caller.
    pub fn from_entry(entry: &Entry) -> (user: User)
        ensures
            user@ == parsed_user(entry@),
    {
        let mut password = String::new();
        let mut uid = String::new();
        let mut mail = String::new();
        let mut first_name = String::new();
        let mut last_name = String::new();
        let mut school = String::new();
        let mut genie = String::new();
        let mut matricule = String::new();
        let mut number = String::new();
        let mut name = String::new();
        let mut picture: Option<Vec<u8>> = None;
        let mut member: Option<Vec<String>> = None;
        let ghost attrs = entry@.attrs;
        let ghost bin_attrs = entry@.bin_attrs;
        proof {
            lemma_wire_names();
        }

        let mut i: usize = 0;
        while i < entry.attrs.len()
            invariant
                i <= entry.attrs@.len(),
                attrs == entry@.attrs,
                attrs.len() == entry.attrs@.len(),
                uid@ == text_upto(attrs, UserAttribute::Uid, i as int),
                password@ == text_upto(attrs, UserAttribute::Password, i as int),
                mail@ == text_upto(attrs, UserAttribute::Mail, i as int),
                first_name@ == text_upto(attrs, UserAttribute::FirstName, i as int),
                last_name@ == text_upto(attrs, UserAttribute::LastName, i as int),
                name@ == text_upto(attrs, UserAttribute::Name, i as int),
                school@ == text_upto(attrs, UserAttribute::School, i as int),
                genie@ == text_upto(attrs, UserAttribute::Genie, i as int),
                matricule@ == text_upto(attrs, UserAttribute::Matricule, i as int),
                number@ == text_upto(attrs, UserAttribute::Number, i as int),
                match picture {
                    Some(p) => Some(p@),
                    None => None,
                } == text_picture_upto(attrs, i as int),
                match member {
                    Some(m) => Some(texts(m@)),
                    None => None,
                } == last_named(attrs, UserAttribute::MemberOf.wire_name(), false, i as int),
            decreases entry.attrs@.len() - i,
        {
            let attribute = &entry.attrs[i];
            proof {
                lemma_wire_names();
                assert(attrs[i as int] == attribute@);
            }
            let field = UserAttribute::from_str(attribute.name.as_str());
            if attribute.values.len() > 0 {
                let first = &attribute.values[0];
                assert(attribute@.values[0] == first@);
                match field {
                    UserAttribute::Password => password = copy_text(first),
                    UserAttribute::Mail => mail = copy_text(first),
                    UserAttribute::FirstName => first_name = copy_text(first),
                    UserAttribute::Name => name = copy_text(first),
                    UserAttribute::LastName => last_name = copy_text(first),
                    UserAttribute::School => school = copy_text(first),
                    UserAttribute::Genie => genie = copy_text(first),
                    UserAttribute::Uid => uid = copy_text(first),
                    UserAttribute::Matricule => matricule = copy_text(first),
                    UserAttribute::Number => number = copy_text(first),
                    UserAttribute::MemberOf => member = Some(copy_texts(&attribute.values)),
                    UserAttribute::Picture => picture = Some(first.as_str().as_bytes_vec()),
                    UserAttribute::Unknown => {},
                }
            } else {
                match field {
                    UserAttribute::MemberOf => member = Some(copy_texts(&attribute.values)),
                    _ => {},
                }
            }
            i += 1;
        }

        let mut k: usize = 0;
        while k < entry.bin_attrs.len()
            invariant
                k <= entry.bin_attrs@.len(),
                attrs == entry@.attrs,
                bin_attrs == entry@.bin_attrs,
                bin_attrs.len() == entry.bin_attrs@.len(),
                match picture {
                    Some(p) => Some(p@),
                    None => None,
                } == picture_upto(attrs, bin_attrs, k as int),
            decreases entry.bin_attrs@.len() - k,
        {
            let attribute = &entry.bin_attrs[k];
            proof {
                lemma_wire_names();
                assert(bin_attrs[k as int] == attribute@);
            }
            let field = UserAttribute::from_str(attribute.name.as_str());
            if attribute.values.len() > 0 {
                assert(attribute@.values[0] == attribute.values@[0]@);
                match field {
                    UserAttribute::Picture => picture = Some(copy_bytes(&attribute.values[0])),
                    _ => {},
                }
            }
            k += 1;
        }

        User {
            password,
            mail,
            first_name,
            last_name,
            name,
            school,
            genie,
            uid,
            matricule,
            number,
            picture,
            member,
        }
    }

    /// Checks a password against the stored record of the user.
    pub fn verify_password(&self, password: &str) -> (admitted: bool)
        ensures
            admitted == verifies(password@, self.password@),
    {
        Password::verify(password, self.password.as_str())
    }

    /// The attributes of the request that adds the user to the directory.
    pub fn to_ldif(&self) -> (ldif: Vec<Attribute>)
        ensures
            attributes(ldif@) == add_attributes(self@),
    {
        let mut ldif: Vec<Attribute> = Vec::new();
        assert(attributes(ldif@) =~= Seq::empty());
        push_text_attribute(&mut ldif, UserAttribute::Password.as_str(), &self.password);
        push_text_attribute(&mut ldif, UserAttribute::Mail.as_str(), &self.mail);
        push_text_attribute(&mut ldif, UserAttribute::FirstName.as_str(), &self.first_name);
        push_text_attribute(&mut ldif, UserAttribute::LastName.as_str(), &self.last_name);
        push_text_attribute(&mut ldif, UserAttribute::Name.as_str(), &self.name);
        push_text_attribute(&mut ldif, UserAttribute::School.as_str(), &self.school);
        push_text_attribute(&mut ldif, UserAttribute::Genie.as_str(), &self.genie);
        push_text_attribute(&mut ldif, UserAttribute::Uid.as_str(), &self.uid);
        push_text_attribute(&mut ldif, UserAttribute::Matricule.as_str(), &self.matricule);
        push_text_attribute(&mut ldif, UserAttribute::Number.as_str(), &self.number);
        let ghost before = ldif@;
        let values: Vec<String> = vec!["inetOrgPerson".to_owned()];
        let class = Attribute { name: "objectClass".to_owned(), values };
        assert(class@.values =~= seq!["inetOrgPerson"@]);
        ldif.push(class);
        assert(attributes(ldif@) =~= attributes(before) + seq![
            AttributeView { name: "objectClass"@, values: seq!["inetOrgPerson"@] },
        ]);
        assert(attributes(ldif@) =~= add_attributes(self@));
        ldif
    }
}

/// The later of two findings, where there is a later one.
pub open spec fn later(
    first: Option<Seq<Seq<char>>>,
    second: Option<Seq<Seq<char>>>,
) -> Option<Seq<Seq<char>>> {
    match second {
        Some(values) => Some(values),
        None => first,
    }
}

/// What counts of a name in all of a list.
pub open spec fn counts(attrs: Seq<AttributeView>, name: Seq<char>, filled: bool) -> Option<
    Seq<Seq<char>>,
> {
    last_named(attrs, name, filled, attrs.len() as int)
}

/// What counts of a name in eleven lists put together.
proof fn lemma_counts_of_eleven(c: Seq<Seq<AttributeView>>, name: Seq<char>, filled: bool)
    requires
        c.len() == 11,
    ensures
        counts(
            c[0] + c[1] + c[2] + c[3] + c[4] + c[5] + c[6] + c[7] + c[8] + c[9] + c[10],
            name,
            filled,
        ) == later(
            later(
                later(
                    later(
                        later(
                            later(
                                later(
                                    later(
                                        later(
                                            later(
                                                counts(c[0], name, filled),
                                                counts(c[1], name, filled),
                                            ),
                                            counts(c[2], name, filled),
                                        ),
                                        counts(c[3], name, filled),
                                    ),
                                    counts(c[4], name, filled),
                                ),
                                counts(c[5], name, filled),
                            ),
                            counts(c[6], name, filled),
                        ),
                        counts(c[7], name, filled),
                    ),
                    counts(c[8], name, filled),
                ),
                counts(c[9], name, filled),
            ),
            counts(c[10], name, filled),
        ),
{
    lemma_last_named_concat(c[0], c[1], name, filled);
    lemma_last_named_concat(c[0] + c[1], c[2], name, filled);
    lemma_last_named_concat(c[0] + c[1] + c[2], c[3], name, filled);
    lemma_last_named_concat(c[0] + c[1] + c[2] + c[3], c[4], name, filled);
    lemma_last_named_concat(c[0] + c[1] + c[2] + c[3] + c[4], c[5], name, filled);
    lemma_last_named_concat(c[0] + c[1] + c[2] + c[3] + c[4] + c[5], c[6], name, filled);
    lemma_last_named_concat(c[0] + c[1] + c[2] + c[3] + c[4] + c[5] + c[6], c[7], name, filled);
    lemma_last_named_concat(
        c[0] + c[1] + c[2] + c[3] + c[4] + c[5] + c[6] + c[7],
        c[8],
        name,
        filled,
    );
    lemma_last_named_concat(
        c[0] + c[1] + c[2] + c[3] + c[4] + c[5] + c[6] + c[7] + c[8],
        c[9],
        name,
        filled,
    );
    lemma_last_named_concat(
        c[0] + c[1] + c[2] + c[3] + c[4] + c[5] + c[6] + c[7] + c[8] + c[9],
        c[10],
        name,
        filled,
    );
}

/// What counts of a name in the attribute of one text.
proof fn lemma_counts_of_text(
    written: Seq<char>,
    value: Seq<char>,
    name: Seq<char>,
    filled: bool,
)
    ensures
        counts(text_attribute(written, value), name, filled) == if written == name && value.len()
            > 0 {
            Some(seq![value])
        } else {
            None
        },
{
    let attrs = text_attribute(written, value);
    if attrs.len() == 1 {
        assert(last_named(attrs, name, filled, 0) is None);
    }
}

/// What an add request holds under the name of a field: the text of the
/// field where it is not empty, and nothing else.
pub proof fn lemma_added_attribute(user: UserView, attribute: UserAttribute, filled: bool)
    requires
        attribute != UserAttribute::Unknown,
    ensures
        counts(add_attributes(user), attribute.wire_name(), filled) == if user.text(
            attribute,
        ).len() > 0 {
            Some(seq![user.text(attribute)])
        } else {
            None
        },
{
    let name = attribute.wire_name();
    let f = seq![
        UserAttribute::Password,
        UserAttribute::Mail,
        UserAttribute::FirstName,
        UserAttribute::LastName,
        UserAttribute::Name,
        UserAttribute::School,
        UserAttribute::Genie,
        UserAttribute::Uid,
        UserAttribute::Matricule,
        UserAttribute::Number,
    ];
    let class = seq![AttributeView { name: "objectClass"@, values: seq!["inetOrgPerson"@] }];
    let c = seq![
        text_attribute(f[0].wire_name(), user.text(f[0])),
        text_attribute(f[1].wire_name(), user.text(f[1])),
        text_attribute(f[2].wire_name(), user.text(f[2])),
        text_attribute(f[3].wire_name(), user.text(f[3])),
        text_attribute(f[4].wire_name(), user.text(f[4])),
        text_attribute(f[5].wire_name(), user.text(f[5])),
        text_attribute(f[6].wire_name(), user.text(f[6])),
        text_attribute(f[7].wire_name(), user.text(f[7])),
        text_attribute(f[8].wire_name(), user.text(f[8])),
        text_attribute(f[9].wire_name(), user.text(f[9])),
        class,
    ];
    assert(add_attributes(user) == c[0] + c[1] + c[2] + c[3] + c[4] + c[5] + c[6] + c[7] + c[8]
        + c[9] + c[10]);
    lemma_counts_of_eleven(c, name, filled);
    assert forall|i: int| 0 <= i < 10 implies #[trigger] counts(c[i], name, filled) == if f[i]
        == attribute && user.text(f[i]).len() > 0 {
        Some(seq![user.text(f[i])])
    } else {
        None
    } by {
        lemma_counts_of_text(f[i].wire_name(), user.text(f[i]), name, filled);
        lemma_wire_names();
    }
    assert(counts(c[10], name, filled) is None) by {
        lemma_wire_names();
        reveal_strlit("objectClass");
        assert(last_named(class, name, filled, 0) is None);
    }
}

/// A user that is parsed from the attributes under which it is added has
/// the texts that it was added with: the registry reads what it writes. The
/// picture and the memberships are no part of an add request.
pub proof fn lemma_added_user_reads_back(user: UserView, dn: Seq<char>)
    ensures
        parsed_user(
            EntryView { dn: dn, attrs: add_attributes(user), bin_attrs: Seq::empty() },
        ) == (UserView { picture: None, member: None, ..user }),
{
    let entry = EntryView { dn: dn, attrs: add_attributes(user), bin_attrs: Seq::empty() };
    let back = parsed_user(entry);
    lemma_added_attribute(user, UserAttribute::Uid, true);
    lemma_added_attribute(user, UserAttribute::Password, true);
    lemma_added_attribute(user, UserAttribute::Mail, true);
    lemma_added_attribute(user, UserAttribute::FirstName, true);
    lemma_added_attribute(user, UserAttribute::LastName, true);
    lemma_added_attribute(user, UserAttribute::Name, true);
    lemma_added_attribute(user, UserAttribute::School, true);
    lemma_added_attribute(user, UserAttribute::Genie, true);
    lemma_added_attribute(user, UserAttribute::Matricule, true);
    lemma_added_attribute(user, UserAttribute::Number, true);
    lemma_added_attribute(user, UserAttribute::Picture, true);
    lemma_added_attribute(user, UserAttribute::MemberOf, false);
    assert(back.uid =~= user.uid);
    assert(back.password =~= user.password);
    assert(back.mail =~= user.mail);
    assert(back.first_name =~= user.first_name);
    assert(back.last_name =~= user.last_name);
    assert(back.name =~= user.name);
    assert(back.school =~= user.school);
    assert(back.genie =~= user.genie);
    assert(back.matricule =~= user.matricule);
    assert(back.number =~= user.number);
    assert(back.picture is None);
    assert(back.member is None);
}

} // verus!
