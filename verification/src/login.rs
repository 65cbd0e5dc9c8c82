//! The login screen: a name is typed, and taken over as the user's name when
//! the button is pressed. The button is disabled while the name is empty.

use vstd::prelude::*;

verus! {

/// Who uses this client. The value is handed to whoever needs the name.
#[derive(Debug, Clone, PartialEq, Eq)]
pub struct User {
    pub username: String,
}

impl View for User {
    type V = Seq<char>;

    open spec fn view(&self) -> Seq<char> {
        self.username@
    }
}

/// What was typed into the login screen so far.
#[derive(Debug, Clone, PartialEq, Eq)]
pub struct LoginForm {
    username: String,
}

impl View for LoginForm {
    type V = Seq<char>;

    closed spec fn view(&self) -> Seq<char> {
        self.username@
    }
}

/// What the login screen shows.
#[derive(Debug, Clone, PartialEq, Eq)]
pub struct LoginView {
    /// The name typed so far.
    pub username: String,
    /// Whether the button is disabled.
    pub disabled: bool,
}

impl LoginForm {
    /// The form before anything was typed.
    pub fn new() -> (r: LoginForm)
        ensures
            r@ == Seq::<char>::empty(),
    {
        LoginForm { username: String::new() }
    }

    /// The input field reports what it holds now.
    pub fn input(&mut self, value: String)
        ensures
            final(self)@ == value@,
    {
        self.username = value;
    }

    /// The button was pressed. Unless it is disabled, the name that was
    /// typed becomes the user's name, and the result says that the chat
    /// screen is to be shown.
    pub fn submit(&self, user: &mut User) -> (r: bool)
        ensures
            r == (self@.len() > 0),
            final(user)@ == if r {
                self@
            } else {
                old(user)@
            },
    {
        if self.username.as_str().is_empty() {
            false
        } else {
            user.username = self.username.clone();
            true
        }
    }
}

/// What the login screen shows for `form`: the name typed so far, and the
/// button disabled while that name is empty.
pub fn login(form: &LoginForm) -> (r: LoginView)
    ensures
        r.username@ == form@,
        r.disabled == (form@.len() == 0),
{
    LoginView { username: form.username.clone(), disabled: form.username.as_str().is_empty() }
}

} // verus!
