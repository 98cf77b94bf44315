//! The credential state a process holds: account identity and the bearer
//! tokens for the two remote services. Reading and writing its persisted form
//! is the surrounding program's job; replacing it is exact here.

use vstd::prelude::*;
use vstd::string::*;

verus! {

/// The signed-in account and its access tokens.
#[derive(Debug)]
pub struct AuthState {
    pub id: String,
    pub check_code: String,
    pub ingame_name: String,
    pub wfm_access_token: String,
    pub qf_access_token: String,
}

impl Clone for AuthState {
    fn clone(&self) -> (r: Self)
        ensures
            r.id@ == self.id@,
            r.check_code@ == self.check_code@,
            r.ingame_name@ == self.ingame_name@,
            r.wfm_access_token@ == self.wfm_access_token@,
            r.qf_access_token@ == self.qf_access_token@,
    {
        AuthState {
            id: self.id.clone(),
            check_code: self.check_code.clone(),
            ingame_name: self.ingame_name.clone(),
            wfm_access_token: self.wfm_access_token.clone(),
            qf_access_token: self.qf_access_token.clone(),
        }
    }
}

impl Default for AuthState {
    /// A signed-out state: every field empty.
    fn default() -> (r: AuthState)
        ensures
            r.id@.len() == 0,
            r.check_code@.len() == 0,
            r.ingame_name@.len() == 0,
            r.wfm_access_token@.len() == 0,
            r.qf_access_token@.len() == 0,
    {
        AuthState {
            id: String::new(),
            check_code: String::new(),
            ingame_name: String::new(),
            wfm_access_token: String::new(),
            qf_access_token: String::new(),
        }
    }
}

impl AuthState {
    /// Replace the whole state with a freshly obtained one.
    pub fn set(&mut self, new_auth: AuthState)
        ensures
            *final(self) == new_auth,
    {
        *self = new_auth;
    }
}

} // verus!
