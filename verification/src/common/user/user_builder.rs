//! Building a new user field by field, with a check at the end that the
//! required fields are there.

use vstd::prelude::*;
use crate::common::password::hash_type;
use crate::common::password::password::{verifies, Password};
use crate::common::password::ssha::{has_fresh_shape, is_fresh_record};
use crate::common::user::user::{User, UserView};

verus! {

/// Collects the fields of a user that is yet to be added.
pub struct UserBuilder {
    user: User,
}

impl View for UserBuilder {
    type V = UserView;

    closed spec fn view(&self) -> UserView {
        self.user@
    }
}

/// The user of which nothing is known yet.
pub open spec fn blank_user() -> UserView {
    UserView {
        uid: Seq::empty(),
        password: Seq::empty(),
        mail: Seq::empty(),
        first_name: Seq::empty(),
        last_name: Seq::empty(),
        name: Seq::empty(),
        school: Seq::empty(),
        genie: Seq::empty(),
        matricule: Seq::empty(),
        number: Seq::empty(),
        picture: None,
        member: None,
    }
}

/// What is said of the first required field that is empty: the required
/// fields are the uid, the password, the mail address, the first name, the
/// last name and the display name, asked for in that order.
pub open spec fn first_missing(user: UserView) -> Option<Seq<char>> {
    if user.uid.len() == 0 {
        Some("uid is required"@)
    } else if user.password.len() == 0 {
        Some("password is required"@)
    } else if user.mail.len() == 0 {
        Some("mail is required"@)
    } else if user.first_name.len() == 0 {
        Some("first_name is required"@)
    } else if user.last_name.len() == 0 {
        Some("last_name is required"@)
    } else if user.name.len() == 0 {
        Some("name is required"@)
    } else {
        None
    }
}

impl UserBuilder {
    /// Starts with a user of which nothing is known.
    pub fn new() -> (builder: Self)
        ensures
            builder@ == blank_user(),
    {
        UserBuilder {
            user: User {
                uid: String::new(),
                name: String::new(),
                first_name: String::new(),
                last_name: String::new(),
                mail: String::new(),
                school: String::new(),
                genie: String::new(),
                matricule: String::new(),
                number: String::new(),
                password: String::new(),
                picture: None,
                member: None,
            },
        }
    }

    /// Sets the uid.
    pub fn uid(self, uid: String) -> (builder: Self)
        ensures
            builder@ == (UserView { uid: uid@, ..self@ }),
    {
        let mut builder = self;
        builder.user.uid = uid;
        builder
    }

    /// Sets the password. The user holds its record, made here under a
    /// fresh salt, which admits the password and has 38 characters whatever
    /// the password is.
    pub fn password(self, password: String) -> (builder: Self)
        ensures
            is_fresh_record(builder@.password, password@),
            has_fresh_shape(builder@.password),
            builder@.password.len() == 38,
            verifies(password@, builder@.password),
            builder@ == (UserView { password: builder@.password, ..self@ }),
    {
        let mut builder = self;
        builder.user.password = Password::hash(password.as_str(), hash_type::Hash::SSHA);
        builder
    }

    /// Sets the mail address.
    pub fn mail(self, mail: String) -> (builder: Self)
        ensures
            builder@ == (UserView { mail: mail@, ..self@ }),
    {
        let mut builder = self;
        builder.user.mail = mail;
        builder
    }

    /// Sets the first name.
    pub fn first_name(self, first_name: String) -> (builder: Self)
        ensures
            builder@ == (UserView { first_name: first_name@, ..self@ }),
    {
        let mut builder = self;
        builder.user.first_name = first_name;
        builder
    }

    /// Sets the last name.
    pub fn last_name(self, last_name: String) -> (builder: Self)
        ensures
            builder@ == (UserView { last_name: last_name@, ..self@ }),
    {
        let mut builder = self;
        builder.user.last_name = last_name;
        builder
    }

    /// Sets the display name.
    pub fn name(self, name: String) -> (builder: Self)
        ensures
            builder@ == (UserView { name: name@, ..self@ }),
    {
        let mut builder = self;
        builder.user.name = name;
        builder
    }

    /// Sets the school code.
    pub fn school(self, school: String) -> (builder: Self)
        ensures
            builder@ == (UserView { school: school@, ..self@ }),
    {
        let mut builder = self;
        builder.user.school = school;
        builder
    }

    /// Sets the department code.
    pub fn genie(self, genie: String) -> (builder: Self)
        ensures
            builder@ == (UserView { genie: genie@, ..self@ }),
    {
        let mut builder = self;
        builder.user.genie = genie;
        builder
    }

    /// Sets the employee number.
    pub fn matricule(self, matricule: String) -> (builder: Self)
        ensures
            builder@ == (UserView { matricule: matricule@, ..self@ }),
    {
        let mut builder = self;
        builder.user.matricule = matricule;
        builder
    }

    /// Sets the phone number.
    pub fn number(self, number: String) -> (builder: Self)
        ensures
            builder@ == (UserView { number: number@, ..self@ }),
    {
        let mut builder = self;
        builder.user.number = number;
        builder
    }

    /// Sets the picture.
    pub fn picture(self, picture: Vec<u8>) -> (builder: Self)
        ensures
            builder@ == (UserView { picture: Some(picture@), ..self@ }),
    {
        let mut builder = self;
        builder.user.picture = Some(picture);
        builder
    }

    /// Hands out the user where every required field is set, and else says
    /// which required field is the first that is missing.
    pub fn build(self) -> (built: Result<User, &'static str>)
        ensures
            match built {
                Ok(user) => first_missing(self@) is None && user@ == self@,
                Err(message) => first_missing(self@) == Some(message@),
            },
    {
        if self.user.uid.as_str().is_empty() {
            return Err("uid is required");
        }
        if self.user.password.as_str().is_empty() {
            return Err("password is required");
        }
        if self.user.mail.as_str().is_empty() {
            return Err("mail is required");
        }
        if self.user.first_name.as_str().is_empty() {
            return Err("first_name is required");
        }
        if self.user.last_name.as_str().is_empty() {
            return Err("last_name is required");
        }
        if self.user.name.as_str().is_empty() {
            return Err("name is required");
        }
        Ok(self.user)
    }
}

} // verus!
