use vstd::prelude::*;

verus! {

/// What a user is, as the contracts see it: its three strings.
pub struct UserView {
    pub user_id: Seq<char>,
    pub username: Seq<char>,
    pub password: Seq<char>,
}

/// A registered user of the chat.
pub struct User {
    user_id: String,
    username: String,
    password: String,
}

impl View for User {
    type V = UserView;

    closed spec fn view(&self) -> UserView {
        UserView { user_id: self.user_id@, username: self.username@, password: self.password@ }
    }
}

impl Clone for User {
    fn clone(&self) -> (res: Self)
        ensures
            res@ == self@,
    {
        User {
            user_id: self.user_id.clone(),
            username: self.username.clone(),
            password: self.password.clone(),
        }
    }
}

impl User {
    pub fn new(user_id: String, username: String, password: String) -> (u: Self)
        ensures
            u@ == (UserView { user_id: user_id@, username: username@, password: password@ }),
    {
        Self { user_id, username, password }
    }

    pub fn get_user_id(&self) -> (r: String)
        ensures
            r@ == self@.user_id,
    {
        self.user_id.clone()
    }

    pub fn get_username(&self) -> (r: String)
        ensures
            r@ == self@.username,
    {
        self.username.clone()
    }

    pub fn get_password(&self) -> (r: String)
        ensures
            r@ == self@.password,
    {
        self.password.clone()
    }
}

} // verus!
