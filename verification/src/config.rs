//! What the command line reads from the user's configuration: the style of
//! its key bindings, and which account is used where none is named.

use vstd::prelude::*;

verus! {

/// The family of key bindings of the command line.
#[derive(Clone, Debug, PartialEq, Eq, Structural)]
pub enum KeybindsStyle {
    Emacs,
    Vi,
}

impl Default for KeybindsStyle {
    /// Emacs bindings, where the configuration names none.
    fn default() -> (r: KeybindsStyle)
        ensures
            r == KeybindsStyle::Emacs,
    {
        KeybindsStyle::Emacs
    }
}

/// The section of the configuration that is about the command line.
#[derive(Clone, Debug, PartialEq, Eq, Structural)]
pub struct ReplConfig {
    pub keybinds: Option<KeybindsStyle>,
}

impl ReplConfig {
    /// The style of key bindings, if the section names one.
    pub fn keybinds(&self) -> (r: Option<&KeybindsStyle>)
        ensures
            r is Some <==> self.keybinds is Some,
            r is Some ==> *r->0 == self.keybinds->0,
    {
        self.keybinds.as_ref()
    }
}

/// What the choice of an account reads of one account of the configuration.
#[derive(Clone, Debug)]
pub struct AccountEntry {
    pub name: String,
    pub default: Option<bool>,
}

/// What the command line reads of the configuration: the accounts, in the
/// order in which they are walked, and the section about the command line.
#[derive(Clone, Debug)]
pub struct TomlConfig {
    pub accounts: Vec<AccountEntry>,
    pub repl: Option<ReplConfig>,
}

impl TomlConfig {
    /// The position of the first account from `i` on that is marked as the
    /// default one, or the number of accounts if there is none.
    pub open spec fn default_from(self, i: int) -> int
        decreases self.accounts@.len() - i,
    {
        if 0 <= i < self.accounts@.len() && self.accounts@[i].default != Some(true) {
            self.default_from(i + 1)
        } else {
            i
        }
    }

    /// The position of the first account from `i` on that is named `name`, or
    /// the number of accounts if there is none.
    pub open spec fn named_from(self, name: Seq<char>, i: int) -> int
        decreases self.accounts@.len() - i,
    {
        if 0 <= i < self.accounts@.len() && self.accounts@[i].name@ != name {
            self.named_from(name, i + 1)
        } else {
            i
        }
    }

    /// The style of key bindings, if the configuration has a section about
    /// the command line and that section names one.
    pub fn repl_keybinds(&self) -> (r: Option<&KeybindsStyle>)
        ensures
            r is Some <==> self.repl is Some && self.repl->0.keybinds is Some,
            r is Some ==> *r->0 == self.repl->0.keybinds->0,
    {
        match &self.repl {
            Some(section) => section.keybinds(),
            None => None,
        }
    }

    /// The position of the account used where none is named: the first that is
    /// marked as the default one.
    pub fn get_default_account_config(&self) -> (r: Option<usize>)
        ensures
            r is Some <==> self.default_from(0) < self.accounts@.len(),
            r is Some ==> r->0 == self.default_from(0),
            r is Some ==> self.accounts@[r->0 as int].default == Some(true),
            r is None ==> forall|k: int|
                0 <= k < self.accounts@.len() ==> (#[trigger] self.accounts@[k]).default != Some(
                    true,
                ),
    {
        let mut i: usize = 0;
        while i < self.accounts.len()
            invariant
                i <= self.accounts@.len(),
                self.default_from(0) == self.default_from(i as int),
                forall|k: int|
                    0 <= k < i ==> (#[trigger] self.accounts@[k]).default != Some(true),
            decreases self.accounts@.len() - i,
        {
            match self.accounts[i].default {
                Some(true) => {
                    return Some(i);
                },
                _ => {},
            }
            i += 1;
        }
        None
    }

    /// The position of the account named `name`: the first of that name.
    pub fn get_account_config(&self, name: &str) -> (r: Option<usize>)
        ensures
            r is Some <==> self.named_from(name@, 0) < self.accounts@.len(),
            r is Some ==> r->0 == self.named_from(name@, 0),
            r is Some ==> self.accounts@[r->0 as int].name@ == name@,
            r is None ==> forall|k: int|
                0 <= k < self.accounts@.len() ==> (#[trigger] self.accounts@[k]).name@ != name@,
    {
        let wanted = name.to_owned();
        let mut i: usize = 0;
        while i < self.accounts.len()
            invariant
                i <= self.accounts@.len(),
                wanted@ == name@,
                self.named_from(name@, 0) == self.named_from(name@, i as int),
                forall|k: int| 0 <= k < i ==> (#[trigger] self.accounts@[k]).name@ != name@,
            decreases self.accounts@.len() - i,
        {
            if self.accounts[i].name == wanted {
                return Some(i);
            }
            i += 1;
        }
        None
    }
}

} // verus!
