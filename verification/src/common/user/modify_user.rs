//! Sparse update requests and the changes that carry them out.
//!
//! A request names the fields that shall change and their new values. Held
//! against the record as the directory has it, it gives the shortest list of
//! changes that brings the entry to the wanted state.

use vstd::prelude::*;
use crate::common::directory::{
    binary_mods, changes_on, lemma_changes_on_concat, mods, BinaryMod, BinaryModView, Mod, ModView,
};
use crate::common::entry::{copy_bytes, copy_text};
use crate::common::password::hash_type;
use crate::common::password::password::{verifies, Password};
use crate::common::password::ssha::{has_fresh_shape, is_fresh_record};
use crate::common::user::user::{User, UserView};
use crate::common::user::user_attribute::{lemma_wire_names, UserAttribute};

verus! {

/// A sparse update request: for each field, the value that it shall have,
/// or nothing where it shall stay as it is.
pub struct ModifyUser {
    password: Option<String>,
    mail: Option<String>,
    first_name: Option<String>,
    last_name: Option<String>,
    name: Option<String>,
    school: Option<String>,
    genie: Option<String>,
    matricule: Option<String>,
    number: Option<String>,
    picture: Option<Vec<u8>>,
}

pub struct ModifyUserView {
    pub password: Option<Seq<char>>,
    pub mail: Option<Seq<char>>,
    pub first_name: Option<Seq<char>>,
    pub last_name: Option<Seq<char>>,
    pub name: Option<Seq<char>>,
    pub school: Option<Seq<char>>,
    pub genie: Option<Seq<char>>,
    pub matricule: Option<Seq<char>>,
    pub number: Option<Seq<char>>,
    pub picture: Option<Seq<u8>>,
}

/// What an optional text holds.
pub open spec fn text_option(value: Option<String>) -> Option<Seq<char>> {
    match value {
        Some(s) => Some(s@),
        None => None,
    }
}

/// What an optional byte string holds.
pub open spec fn bytes_option(value: Option<Vec<u8>>) -> Option<Seq<u8>> {
    match value {
        Some(b) => Some(b@),
        None => None,
    }
}

impl View for ModifyUser {
    type V = ModifyUserView;

    closed spec fn view(&self) -> ModifyUserView {
        ModifyUserView {
            password: text_option(self.password),
            mail: text_option(self.mail),
            first_name: text_option(self.first_name),
            last_name: text_option(self.last_name),
            name: text_option(self.name),
            school: text_option(self.school),
            genie: text_option(self.genie),
            matricule: text_option(self.matricule),
            number: text_option(self.number),
            picture: bytes_option(self.picture),
        }
    }
}

impl ModifyUserView {
    /// The request that asks for nothing.
    pub open spec fn empty() -> ModifyUserView {
        ModifyUserView {
            password: None,
            mail: None,
            first_name: None,
            last_name: None,
            name: None,
            school: None,
            genie: None,
            matricule: None,
            number: None,
            picture: None,
        }
    }

    /// The text that the request wants for a field, where it wants one.
    pub open spec fn desired(self, attribute: UserAttribute) -> Option<Seq<char>> {
        match attribute {
            UserAttribute::Password => self.password,
            UserAttribute::Mail => self.mail,
            UserAttribute::FirstName => self.first_name,
            UserAttribute::LastName => self.last_name,
            UserAttribute::Name => self.name,
            UserAttribute::School => self.school,
            UserAttribute::Genie => self.genie,
            UserAttribute::Matricule => self.matricule,
            UserAttribute::Number => self.number,
            _ => None,
        }
    }
}

/// The text fields that a request is held against the record for.
pub open spec fn is_compared(attribute: UserAttribute) -> bool {
    match attribute {
        UserAttribute::Mail
        | UserAttribute::FirstName
        | UserAttribute::LastName
        | UserAttribute::Name
        | UserAttribute::School
        | UserAttribute::Genie
        | UserAttribute::Matricule
        | UserAttribute::Number => true,
        _ => false,
    }
}

/// The change that brings one text field from `current` to `desired`:
/// an addition where the field is unset, a deletion of the attribute where
/// the wanted text is empty, a replacement where the two differ, and
/// nothing where nothing is wanted or nothing would change.
pub open spec fn field_change(
    attribute: UserAttribute,
    desired: Option<Seq<char>>,
    current: Seq<char>,
) -> Seq<ModView> {
    match desired {
        None => Seq::empty(),
        Some(wanted) => if current.len() == 0 && wanted.len() > 0 {
            seq![ModView::Add(attribute.wire_name(), seq![wanted])]
        } else if wanted.len() == 0 && current.len() > 0 {
            seq![ModView::Delete(attribute.wire_name(), Seq::empty())]
        } else if current != wanted {
            seq![ModView::Replace(attribute.wire_name(), seq![wanted])]
        } else {
            Seq::empty()
        },
    }
}

/// The change for the password: a replacement whenever one is wanted.
pub open spec fn password_change(desired: Option<Seq<char>>) -> Seq<ModView> {
    match desired {
        None => Seq::empty(),
        Some(wanted) => seq![ModView::Replace(UserAttribute::Password.wire_name(), seq![wanted])],
    }
}

/// The change of a compared field between a request and a record.
pub open spec fn compared_change(
    request: ModifyUserView,
    current: UserView,
    attribute: UserAttribute,
) -> Seq<ModView> {
    field_change(attribute, request.desired(attribute), current.text(attribute))
}

/// The changes to the text attributes that bring `current` to what
/// `request` wants, in the order in which they are sent.
pub open spec fn text_changes(request: ModifyUserView, current: UserView) -> Seq<ModView> {
    password_change(request.password) + compared_change(request, current, UserAttribute::Mail)
        + compared_change(request, current, UserAttribute::FirstName) + compared_change(
        request,
        current,
        UserAttribute::LastName,
    ) + compared_change(request, current, UserAttribute::School) + compared_change(
        request,
        current,
        UserAttribute::Genie,
    ) + compared_change(request, current, UserAttribute::Matricule) + compared_change(
        request,
        current,
        UserAttribute::Number,
    ) + compared_change(request, current, UserAttribute::Name)
}

/// The changes to the binary attributes: a replacement of the picture
/// whenever one is wanted.
pub open spec fn binary_changes(request: ModifyUserView) -> Seq<BinaryModView> {
    match request.picture {
        None => Seq::empty(),
        Some(picture) => seq![
            BinaryModView::Replace(UserAttribute::Picture.wire_name(), seq![picture]),
        ],
    }
}

/// Appends the change of one compared field.
fn push_field_change(
    out: &mut Vec<Mod>,
    attribute: UserAttribute,
    desired: &Option<String>,
    current: &String,
)
    ensures
        mods(final(out)@) == mods(old(out)@) + field_change(
            attribute,
            text_option(*desired),
            current@,
        ),
{
    let ghost before = out@;
    let ghost change = field_change(attribute, text_option(*desired), current@);
    match desired {
        None => {},
        Some(wanted) => {
            if current.as_str().is_empty() && !wanted.as_str().is_empty() {
                let values: Vec<String> = vec![copy_text(wanted)];
                let change_made = Mod::Add(attribute.as_str().to_owned(), values);
                assert(change_made@ == ModView::Add(attribute.wire_name(), seq![wanted@])) by {
                    assert(crate::text::texts(values@) =~= seq![wanted@]);
                }
                out.push(change_made);
            } else if wanted.as_str().is_empty() && !current.as_str().is_empty() {
                let values: Vec<String> = Vec::new();
                let change_made = Mod::Delete(attribute.as_str().to_owned(), values);
                assert(change_made@ == ModView::Delete(attribute.wire_name(), Seq::empty())) by {
                    assert(crate::text::texts(values@) =~= Seq::empty());
                }
                out.push(change_made);
            } else if !current.as_str().eq(wanted.as_str()) {
                let values: Vec<String> = vec![copy_text(wanted)];
                let change_made = Mod::Replace(attribute.as_str().to_owned(), values);
                assert(change_made@ == ModView::Replace(attribute.wire_name(), seq![wanted@])) by {
                    assert(crate::text::texts(values@) =~= seq![wanted@]);
                }
                out.push(change_made);
            }
        },
    }
    assert(mods(out@) =~= mods(before) + change);
}

impl ModifyUser {
    /// The request that asks for nothing.
    pub fn new() -> (request: Self)
        ensures
            request@ == ModifyUserView::empty(),
    {
        ModifyUser {
            password: None,
            mail: None,
            first_name: None,
            last_name: None,
            name: None,
            school: None,
            genie: None,
            matricule: None,
            number: None,
            picture: None,
        }
    }

    /// Asks for a new password. The request holds its record, made here
    /// under a fresh salt; nothing else of the request changes.
    pub fn password(self, password: String) -> (request: Self)
        ensures
            request@.password matches Some(record) && is_fresh_record(record, password@)
                && has_fresh_shape(record) && record.len() == 38 && verifies(password@, record),
            request@ == (ModifyUserView { password: request@.password, ..self@ }),
    {
        let mut request = self;
        request.password = Some(Password::hash(password.as_str(), hash_type::Hash::SSHA));
        request
    }

    /// Asks for a new mail address.
    pub fn mail(self, mail: String) -> (request: Self)
        ensures
            request@ == (ModifyUserView { mail: Some(mail@), ..self@ }),
    {
        let mut request = self;
        request.mail = Some(mail);
        request
    }

    /// Asks for a new first name.
    pub fn first_name(self, first_name: String) -> (request: Self)
        ensures
            request@ == (ModifyUserView { first_name: Some(first_name@), ..self@ }),
    {
        let mut request = self;
        request.first_name = Some(first_name);
        request
    }

    /// Asks for a new last name.
    pub fn last_name(self, last_name: String) -> (request: Self)
        ensures
            request@ == (ModifyUserView { last_name: Some(last_name@), ..self@ }),
    {
        let mut request = self;
        request.last_name = Some(last_name);
        request
    }

    /// Asks for a new display name.
    pub fn name(self, name: String) -> (request: Self)
        ensures
            request@ == (ModifyUserView { name: Some(name@), ..self@ }),
    {
        let mut request = self;
        request.name = Some(name);
        request
    }

    /// Asks for a new school code.
    pub fn school(self, school: String) -> (request: Self)
        ensures
            request@ == (ModifyUserView { school: Some(school@), ..self@ }),
    {
        let mut request = self;
        request.school = Some(school);
        request
    }

    /// Asks for a new department code.
    pub fn genie(self, genie: String) -> (request: Self)
        ensures
            request@ == (ModifyUserView { genie: Some(genie@), ..self@ }),
    {
        let mut request = self;
        request.genie = Some(genie);
        request
    }

    /// Asks for a new employee number.
    pub fn matricule(self, matricule: String) -> (request: Self)
        ensures
            request@ == (ModifyUserView { matricule: Some(matricule@), ..self@ }),
    {
        let mut request = self;
        request.matricule = Some(matricule);
        request
    }

    /// Asks for a new phone number.
    pub fn number(self, number: String) -> (request: Self)
        ensures
            request@ == (ModifyUserView { number: Some(number@), ..self@ }),
    {
        let mut request = self;
        request.number = Some(number);
        request
    }

    /// Asks for a new picture.
    pub fn picture(self, picture: Vec<u8>) -> (request: Self)
        ensures
            request@ == (ModifyUserView { picture: Some(picture@), ..self@ }),
    {
        let mut request = self;
        request.picture = Some(picture);
        request
    }

    /// Asks for every field of `user`, as it is: its password record as
    /// stored, its texts, and its picture where it has one.
    pub fn set_all(self, user: User) -> (request: Self)
        ensures
            request@ == (ModifyUserView {
                password: Some(user@.password),
                mail: Some(user@.mail),
                first_name: Some(user@.first_name),
                last_name: Some(user@.last_name),
                name: Some(user@.name),
                school: Some(user@.school),
                genie: Some(user@.genie),
                matricule: Some(user@.matricule),
                number: Some(user@.number),
                picture: user@.picture,
            }),
    {
        let mut request = self;
        request.password = Some(user.password);
        request.mail = Some(user.mail);
        request.first_name = Some(user.first_name);
        request.last_name = Some(user.last_name);
        request.name = Some(user.name);
        request.school = Some(user.school);
        request.genie = Some(user.genie);
        request.matricule = Some(user.matricule);
        request.number = Some(user.number);
        request.picture = user.picture;
        request
    }

    /// The changes that bring `user` to what the request wants: those to the
    /// text attributes, and apart from them those to the binary attributes.
    pub fn to_ldif(&self, user: &User) -> (ldif: (Vec<Mod>, Vec<BinaryMod>))
        ensures
            mods(ldif.0@) == text_changes(self@, user@),
            binary_mods(ldif.1@) == binary_changes(self@),
            ldif.0@.len() == text_changes(self@, user@).len(),
            ldif.1@.len() == binary_changes(self@).len(),
    {
        let mut ldif: Vec<Mod> = Vec::new();
        assert(mods(ldif@) =~= Seq::empty());
        match &self.password {
            Some(password) => {
                let values: Vec<String> = vec![copy_text(password)];
                let change = Mod::Replace(UserAttribute::Password.as_str().to_owned(), values);
                assert(crate::text::texts(values@) =~= seq![password@]);
                ldif.push(change);
            },
            None => {},
        }
        assert(mods(ldif@) =~= password_change(self@.password));
        push_field_change(&mut ldif, UserAttribute::Mail, &self.mail, &user.mail);
        push_field_change(&mut ldif, UserAttribute::FirstName, &self.first_name, &user.first_name);
        push_field_change(&mut ldif, UserAttribute::LastName, &self.last_name, &user.last_name);
        push_field_change(&mut ldif, UserAttribute::School, &self.school, &user.school);
        push_field_change(&mut ldif, UserAttribute::Genie, &self.genie, &user.genie);
        push_field_change(&mut ldif, UserAttribute::Matricule, &self.matricule, &user.matricule);
        push_field_change(&mut ldif, UserAttribute::Number, &self.number, &user.number);
        push_field_change(&mut ldif, UserAttribute::Name, &self.name, &user.name);

        let mut ldif2: Vec<BinaryMod> = Vec::new();
        match &self.picture {
            Some(picture) => {
                let values: Vec<Vec<u8>> = vec![copy_bytes(picture)];
                let change = BinaryMod::Replace(UserAttribute::Picture.as_str().to_owned(), values);
                assert(crate::common::entry::blobs(values@) =~= seq![picture@]);
                ldif2.push(change);
            },
            None => {},
        }
        assert(binary_mods(ldif2@) =~= binary_changes(self@));
        (ldif, ldif2)
    }
}

/// The changes about one attribute among those of a single field are all of
/// them where the field is written under that attribute, and none else.
proof fn lemma_changes_on_one(change: Seq<ModView>, attribute: Seq<char>)
    requires
        change.len() <= 1,
    ensures
        changes_on(change, attribute) == if change.len() == 1 && change[0].attribute()
            == attribute {
            change
        } else {
            Seq::empty()
        },
{
    if change.len() == 1 {
        assert(change.drop_last() =~= Seq::empty());
        assert(changes_on(change.drop_last(), attribute) =~= Seq::empty());
        assert(Seq::<ModView>::empty().push(change.last()) =~= change);
    }
}

/// The changes of a single field that are about `attribute`.
pub open spec fn picked(change: Seq<ModView>, attribute: Seq<char>) -> Seq<ModView> {
    if change.len() == 1 && change[0].attribute() == attribute {
        change
    } else {
        Seq::empty()
    }
}

/// Appending the changes of one field adds those of them that are about
/// the attribute.
proof fn lemma_changes_on_appended(acc: Seq<ModView>, change: Seq<ModView>, attribute: Seq<char>)
    requires
        change.len() <= 1,
    ensures
        changes_on(acc + change, attribute) == changes_on(acc, attribute) + picked(
            change,
            attribute,
        ),
{
    lemma_changes_on_one(change, attribute);
    lemma_changes_on_concat(acc, change, attribute);
}

/// The changes about an attribute in nine fields' changes put together.
proof fn lemma_changes_on_nine(c: Seq<Seq<ModView>>, attribute: Seq<char>)
    requires
        c.len() == 9,
        forall|i: int| 0 <= i < 9 ==> (#[trigger] c[i]).len() <= 1,
    ensures
        changes_on(c[0] + c[1] + c[2] + c[3] + c[4] + c[5] + c[6] + c[7] + c[8], attribute)
            == picked(c[0], attribute) + picked(c[1], attribute) + picked(c[2], attribute)
            + picked(c[3], attribute) + picked(c[4], attribute) + picked(c[5], attribute)
            + picked(c[6], attribute) + picked(c[7], attribute) + picked(c[8], attribute),
{
    lemma_changes_on_one(c[0], attribute);
    lemma_changes_on_appended(c[0], c[1], attribute);
    lemma_changes_on_appended(c[0] + c[1], c[2], attribute);
    lemma_changes_on_appended(c[0] + c[1] + c[2], c[3], attribute);
    lemma_changes_on_appended(c[0] + c[1] + c[2] + c[3], c[4], attribute);
    lemma_changes_on_appended(c[0] + c[1] + c[2] + c[3] + c[4], c[5], attribute);
    lemma_changes_on_appended(c[0] + c[1] + c[2] + c[3] + c[4] + c[5], c[6], attribute);
    lemma_changes_on_appended(c[0] + c[1] + c[2] + c[3] + c[4] + c[5] + c[6], c[7], attribute);
    lemma_changes_on_appended(
        c[0] + c[1] + c[2] + c[3] + c[4] + c[5] + c[6] + c[7],
        c[8],
        attribute,
    );
}

/// The change of a field is at most one change, and it is about the field.
proof fn lemma_field_change_shape(
    attribute: UserAttribute,
    desired: Option<Seq<char>>,
    current: Seq<char>,
)
    ensures
        field_change(attribute, desired, current).len() <= 1,
        field_change(attribute, desired, current).len() == 1 ==> field_change(
            attribute,
            desired,
            current,
        )[0].attribute() == attribute.wire_name(),
{
}

/// Of all the changes that a request gives, those about one compared field
/// are the change of that field, and those about the password are the
/// change of the password.
pub proof fn lemma_changes_on_field(
    request: ModifyUserView,
    current: UserView,
    attribute: UserAttribute,
)
    requires
        is_compared(attribute) || attribute == UserAttribute::Password,
    ensures
        changes_on(text_changes(request, current), attribute.wire_name()) == if attribute
            == UserAttribute::Password {
            password_change(request.password)
        } else {
            compared_change(request, current, attribute)
        },
{
    let name = attribute.wire_name();
    let c = seq![
        password_change(request.password),
        compared_change(request, current, UserAttribute::Mail),
        compared_change(request, current, UserAttribute::FirstName),
        compared_change(request, current, UserAttribute::LastName),
        compared_change(request, current, UserAttribute::School),
        compared_change(request, current, UserAttribute::Genie),
        compared_change(request, current, UserAttribute::Matricule),
        compared_change(request, current, UserAttribute::Number),
        compared_change(request, current, UserAttribute::Name),
    ];
    let f = seq![
        UserAttribute::Password,
        UserAttribute::Mail,
        UserAttribute::FirstName,
        UserAttribute::LastName,
        UserAttribute::School,
        UserAttribute::Genie,
        UserAttribute::Matricule,
        UserAttribute::Number,
        UserAttribute::Name,
    ];
    assert forall|i: int| 0 <= i < 9 implies (#[trigger] c[i]).len() <= 1 && (c[i].len() == 1
        ==> c[i][0].attribute() == f[i].wire_name()) by {
        lemma_field_change_shape(f[i], request.desired(f[i]), current.text(f[i]));
    }
    lemma_changes_on_nine(c, name);
    assert forall|i: int| 0 <= i < 9 implies #[trigger] picked(c[i], name) == if f[i]
        == attribute {
        c[i]
    } else {
        Seq::<ModView>::empty()
    } by {
        lemma_wire_names();
    }
    assert(text_changes(request, current) == c[0] + c[1] + c[2] + c[3] + c[4] + c[5] + c[6] + c[7]
        + c[8]);
    let k = choose|k: int| 0 <= k < 9 && f[k] == attribute;
    assert(f[0] == attribute || f[1] == attribute || f[2] == attribute || f[3] == attribute || f[4]
        == attribute || f[5] == attribute || f[6] == attribute || f[7] == attribute || f[8]
        == attribute);
    assert(picked(c[0], name) + picked(c[1], name) + picked(c[2], name) + picked(c[3], name)
        + picked(c[4], name) + picked(c[5], name) + picked(c[6], name) + picked(c[7], name)
        + picked(c[8], name) =~= c[k]);
}

/// Where the record has no value for a field and the request sets it to a
/// text that is not empty, the changes hold exactly one about the field: the
/// addition of that text.
pub proof fn lemma_unset_field_is_added(
    request: ModifyUserView,
    current: UserView,
    attribute: UserAttribute,
    value: Seq<char>,
)
    requires
        is_compared(attribute),
        current.text(attribute).len() == 0,
        request.desired(attribute) == Some(value),
        value.len() > 0,
    ensures
        changes_on(text_changes(request, current), attribute.wire_name()) == seq![
            ModView::Add(attribute.wire_name(), seq![value]),
        ],
{
    lemma_changes_on_field(request, current, attribute);
}

/// Where the record has a value for a field and the request sets the field
/// to the empty text, the changes hold exactly one about the field: the
/// deletion of the attribute.
pub proof fn lemma_emptied_field_is_deleted(
    request: ModifyUserView,
    current: UserView,
    attribute: UserAttribute,
)
    requires
        is_compared(attribute),
        current.text(attribute).len() > 0,
        request.desired(attribute) == Some(Seq::<char>::empty()),
    ensures
        changes_on(text_changes(request, current), attribute.wire_name()) == seq![
            ModView::Delete(attribute.wire_name(), Seq::empty()),
        ],
{
    lemma_changes_on_field(request, current, attribute);
}

/// Where the request sets a field to the value that the record has, or
/// does not set it, the changes hold none about the field.
pub proof fn lemma_same_field_is_untouched(
    request: ModifyUserView,
    current: UserView,
    attribute: UserAttribute,
)
    requires
        is_compared(attribute),
        request.desired(attribute) is None || request.desired(attribute) == Some(
            current.text(attribute),
        ),
    ensures
        changes_on(text_changes(request, current), attribute.wire_name()) == Seq::<
            ModView,
        >::empty(),
{
    lemma_changes_on_field(request, current, attribute);
}

/// Where the request sets a field to a text that is not empty and differs
/// from the value that the record has, the changes hold exactly one about
/// the field: the replacement by that text.
pub proof fn lemma_changed_field_is_replaced(
    request: ModifyUserView,
    current: UserView,
    attribute: UserAttribute,
    value: Seq<char>,
)
    requires
        is_compared(attribute),
        current.text(attribute).len() > 0,
        request.desired(attribute) == Some(value),
        value.len() > 0,
        value != current.text(attribute),
    ensures
        changes_on(text_changes(request, current), attribute.wire_name()) == seq![
            ModView::Replace(attribute.wire_name(), seq![value]),
        ],
{
    lemma_changes_on_field(request, current, attribute);
}

/// A request that sets a password always gives its replacement, whatever
/// the record holds.
pub proof fn lemma_password_is_replaced(
    request: ModifyUserView,
    current: UserView,
    record: Seq<char>,
)
    requires
        request.password == Some(record),
    ensures
        changes_on(text_changes(request, current), UserAttribute::Password.wire_name()) == seq![
            ModView::Replace(UserAttribute::Password.wire_name(), seq![record]),
        ],
{
    lemma_changes_on_field(request, current, UserAttribute::Password);
}

/// A request that asks for nothing gives no change.
pub proof fn lemma_empty_request_changes_nothing(current: UserView)
    ensures
        text_changes(ModifyUserView::empty(), current) == Seq::<ModView>::empty(),
        binary_changes(ModifyUserView::empty()) == Seq::<BinaryModView>::empty(),
{
    assert(text_changes(ModifyUserView::empty(), current) =~= Seq::<ModView>::empty());
}

} // verus!
