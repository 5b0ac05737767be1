//! Driver options and the capability objects sent at session creation.
//!
//! [`DriverOptions`] collects the browser profile, command-line arguments,
//! preferences and log settings; [`Capabilities`] is the capability object
//! the "new session" command carries, assembled from those options and
//! from the fixed defaults of [`DesiredCapabilities`].
use vstd::prelude::*;

use crate::error::GeckError;
use crate::types::Dict;
use crate::types::DictType;
use crate::types::DictVal;
use crate::types::obj_insert1;
use crate::types::val_wf;

verus! {

/// The browsers the library ships fixed default capabilities for.
pub enum DesiredCapabilities {
    FIREFOX,
}

/// A capability object: a dictionary of match sections, each holding the
/// capabilities required under that section.
pub struct Capabilities {
    capabilities: Dict,
}

impl Capabilities {
    /// The underlying dictionary is well formed.
    pub closed spec fn wf(&self) -> bool {
        self.capabilities.wf()
    }

    /// The top-level entries of the capability object.
    pub closed spec fn entries(&self) -> Seq<(Seq<char>, DictVal)> {
        self.capabilities.entries()
    }

    /// An empty capability object.
    pub fn new() -> (r: Capabilities)
        ensures
            r.wf(),
            r.entries() == Seq::<(Seq<char>, DictVal)>::empty(),
    {
        Capabilities { capabilities: Dict::new() }
    }

    /// Requires capability `k = v` under the match section `match_type`,
    /// merging with whatever that section already requires.
    pub fn insert(&mut self, match_type: &str, k: &str, v: DictType)
        requires
            old(self).wf(),
            val_wf(v@),
        ensures
            final(self).wf(),
            final(self).entries() == obj_insert1(
                old(self).entries(),
                match_type@,
                DictVal::Obj(seq![(k@, v@)]),
            ),
    {
        let mut temp = Dict::new();
        temp.insert(k, v);
        proof {
            assert(temp.entries() =~= seq![(k@, v@)]);
            crate::types::lemma_dict_wf(&temp);
        }
        self.capabilities.insert(match_type, DictType::from(temp));
    }

    /// Merges every section of `cap` into this capability object.
    pub fn extend(&mut self, cap: Capabilities)
        requires
            old(self).wf(),
            cap.wf(),
        ensures
            final(self).wf(),
            final(self).entries() == crate::types::obj_merge(old(self).entries(), cap.entries()),
    {
        self.capabilities.extend(cap.capabilities);
    }

    /// The JSON text this capability object is sent as: the driver's
    /// documented new-session body, the sections wrapped under one
    /// `capabilities` key.
    pub fn to_json_string(&self) -> (r: String)
        requires
            self.wf(),
        ensures
            r@ == crate::json::json_of(
                DictVal::Obj(seq![("capabilities"@, DictVal::Obj(self.entries()))]),
            ),
    {
        proof {
            crate::types::lemma_dict_wf(&self.capabilities);
        }
        let mut wrapper = Dict::new();
        wrapper.insert("capabilities", DictType::from(self.capabilities.clone()));
        proof {
            assert(wrapper.entries() =~= seq![("capabilities"@, DictVal::Obj(self.entries()))]);
            crate::types::lemma_dict_wf(&wrapper);
        }
        wrapper.to_json_string()
    }
}

/// The entries of the fixed default capability object: one `alwaysMatch`
/// section naming the browser and accepting insecure certificates and a
/// debugger address.
pub open spec fn firefox_default_entries() -> Seq<(Seq<char>, DictVal)> {
    obj_insert1(
        obj_insert1(
            obj_insert1(
                Seq::<(Seq<char>, DictVal)>::empty(),
                "alwaysMatch"@,
                DictVal::Obj(seq![("browserName"@, DictVal::Str("firefox"@))]),
            ),
            "alwaysMatch"@,
            DictVal::Obj(seq![("acceptInsecureCerts"@, DictVal::Flag(true))]),
        ),
        "alwaysMatch"@,
        DictVal::Obj(seq![("moz:debuggerAddress"@, DictVal::Flag(true))]),
    )
}

impl DesiredCapabilities {
    /// The fixed default capabilities of the chosen browser.
    pub fn values(&self) -> (r: Capabilities)
        ensures
            r.wf(),
            r.entries() == firefox_default_entries(),
    {
        match *self {
            DesiredCapabilities::FIREFOX => {
                let mut cap = Capabilities::new();
                cap.insert("alwaysMatch", "browserName", DictType::from("firefox"));
                cap.insert("alwaysMatch", "acceptInsecureCerts", DictType::from(true));
                cap.insert("alwaysMatch", "moz:debuggerAddress", DictType::from(true));
                cap
            }
        }
    }
}

/// The mathematical values of a sequence of strings.
pub open spec fn strs_view(s: Seq<String>) -> Seq<DictVal>
    decreases s.len(),
{
    if s.len() == 0 {
        Seq::empty()
    } else {
        seq![DictVal::Str(s[0]@)] + strs_view(s.drop_first())
    }
}

/// Pointwise reading of [`strs_view`].
pub proof fn lemma_strs_view(s: Seq<String>)
    ensures
        strs_view(s).len() == s.len(),
        forall|i: int| 0 <= i < s.len() ==> strs_view(s)[i] == DictVal::Str((#[trigger] s[i])@),
    decreases s.len(),
{
    if s.len() > 0 {
        lemma_strs_view(s.drop_first());
        assert forall|i: int|
            0 <= i < s.len() implies strs_view(s)[i] == DictVal::Str((#[trigger] s[i])@) by {
            if i > 0 {
                assert(s.drop_first()[i - 1] == s[i]);
            }
        }
    }
}

/// The object entries a sequence of key/value string pairs builds up, the
/// pairs bound left to right.
pub open spec fn pairs_entries(s: Seq<(String, String)>) -> Seq<(Seq<char>, DictVal)>
    decreases s.len(),
{
    if s.len() == 0 {
        Seq::empty()
    } else {
        obj_insert1(pairs_entries(s.drop_last()), s.last().0@, DictVal::Str(s.last().1@))
    }
}

/// The options a driver process and its sessions are configured with.
pub struct DriverOptions {
    profile: Option<String>,
    args: Option<Vec<String>>,
    prefs: Option<Dict>,
    log: Option<Dict>,
}

impl DriverOptions {
    /// The browser profile path, when one was chosen.
    pub closed spec fn profile_view(&self) -> Option<Seq<char>> {
        match self.profile {
            Some(p) => Some(p@),
            None => None,
        }
    }

    /// The command-line arguments, when any were chosen.
    pub closed spec fn args_view(&self) -> Option<Seq<DictVal>> {
        match self.args {
            Some(a) => Some(strs_view(a@)),
            None => None,
        }
    }

    /// The preference entries, when any were chosen.
    pub closed spec fn prefs_view(&self) -> Option<Seq<(Seq<char>, DictVal)>> {
        match self.prefs {
            Some(d) => Some(d.entries()),
            None => None,
        }
    }

    /// The log setting entries, when any were chosen.
    pub closed spec fn log_view(&self) -> Option<Seq<(Seq<char>, DictVal)>> {
        match self.log {
            Some(d) => Some(d.entries()),
            None => None,
        }
    }

    /// The argument, preference and log containers are present and well
    /// formed, as [`DriverOptions::new`] leaves them.
    pub closed spec fn wf(&self) -> bool {
        &&& self.args is Some
        &&& (forall|i: int|
            0 <= i < self.args_view()->0.len() ==> val_wf(#[trigger] self.args_view()->0[i]))
        &&& self.prefs is Some && self.prefs->0.wf()
        &&& self.log is Some && self.log->0.wf()
    }

    /// Fresh options: no profile, and empty arguments, preferences and log
    /// settings.
    pub fn new() -> (r: DriverOptions)
        ensures
            r.wf(),
            r.profile_view() is None,
            r.args_view() == Some(Seq::<DictVal>::empty()),
            r.prefs_view() == Some(Seq::<(Seq<char>, DictVal)>::empty()),
            r.log_view() == Some(Seq::<(Seq<char>, DictVal)>::empty()),
    {
        DriverOptions {
            profile: None,
            args: Some(Vec::new()),
            prefs: Some(Dict::new()),
            log: Some(Dict::new()),
        }
    }

    /// Chooses the browser profile.
    pub fn profile(&mut self, v: &str)
        ensures
            final(self).profile_view() == Some(v@),
            final(self).args_view() == old(self).args_view(),
            final(self).prefs_view() == old(self).prefs_view(),
            final(self).log_view() == old(self).log_view(),
            old(self).wf() ==> final(self).wf(),
    {
        self.profile = Some(v.to_owned());
    }

    /// Replaces the command-line arguments.
    pub fn args(&mut self, v: Vec<&str>)
        ensures
            final(self).args_view() matches Some(a) && a.len() == v@.len() && (forall|i: int|
                0 <= i < v@.len() ==> a[i] == DictVal::Str((#[trigger] v@[i])@)),
            final(self).profile_view() == old(self).profile_view(),
            final(self).prefs_view() == old(self).prefs_view(),
            final(self).log_view() == old(self).log_view(),
            old(self).wf() ==> final(self).wf(),
    {
        let mut owned: Vec<String> = Vec::new();
        let mut i: usize = 0;
        while i < v.len()
            invariant
                i <= v@.len(),
                owned@.len() == i,
                forall|j: int| 0 <= j < i ==> (#[trigger] owned@[j])@ == v@[j]@,
            decreases v@.len() - i,
        {
            owned.push(v[i].to_owned());
            i = i + 1;
        }
        proof {
            lemma_strs_view(owned@);
            assert forall|j: int|
                0 <= j < v@.len() implies strs_view(owned@)[j] == DictVal::Str(
                (#[trigger] v@[j])@,
            ) by {
                assert(owned@[j]@ == v@[j]@);
            }
            assert forall|j: int|
                0 <= j < strs_view(owned@).len() implies val_wf(#[trigger] strs_view(owned@)[j]) by {
                assert(strs_view(owned@)[j] == DictVal::Str(owned@[j]@));
                assert(val_wf(DictVal::Str(owned@[j]@)));
            }
        }
        self.args = Some(owned);
    }

    /// Appends one command-line argument.
    pub fn arg(&mut self, v: &str)
        requires
            old(self).wf(),
        ensures
            final(self).wf(),
            final(self).args_view() == Some(old(self).args_view()->0.push(DictVal::Str(v@))),
            final(self).profile_view() == old(self).profile_view(),
            final(self).prefs_view() == old(self).prefs_view(),
            final(self).log_view() == old(self).log_view(),
    {
        let mut tmp: Option<Vec<String>> = None;
        core::mem::swap(&mut self.args, &mut tmp);
        match tmp {
            Some(mut a) => {
                let ghost before = a@;
                a.push(v.to_owned());
                proof {
                    lemma_strs_view(before);
                    lemma_strs_view(a@);
                    let lhs = strs_view(a@);
                    let rhs = strs_view(before).push(DictVal::Str(v@));
                    assert forall|j: int| 0 <= j < lhs.len() implies lhs[j] == rhs[j] by {
                        if j < before.len() {
                            assert(a@[j] == before[j]);
                        } else {
                            assert(a@[j]@ == v@);
                        }
                    }
                    assert(lhs =~= rhs);
                    assert forall|j: int| 0 <= j < lhs.len() implies val_wf(#[trigger] lhs[j]) by {
                        assert(lhs[j] == DictVal::Str(a@[j]@));
                        assert(val_wf(DictVal::Str(a@[j]@)));
                    }
                }
                self.args = Some(a);
            }
            None => {
                unreached()
            }
        }
    }

    /// Replaces the preferences with the given key/value pairs, bound left
    /// to right.
    pub fn prefs(&mut self, val: &Vec<(String, String)>)
        ensures
            final(self).prefs_view() == Some(pairs_entries(val@)),
            final(self).profile_view() == old(self).profile_view(),
            final(self).args_view() == old(self).args_view(),
            final(self).log_view() == old(self).log_view(),
            old(self).wf() ==> final(self).wf(),
    {
        self.prefs = Some(Self::dict_of_pairs(val));
    }

    /// Binds one preference.
    pub fn pref(&mut self, val: (&str, &str))
        requires
            old(self).wf(),
        ensures
            final(self).wf(),
            final(self).prefs_view() == Some(
                obj_insert1(old(self).prefs_view()->0, val.0@, DictVal::Str(val.1@)),
            ),
            final(self).profile_view() == old(self).profile_view(),
            final(self).args_view() == old(self).args_view(),
            final(self).log_view() == old(self).log_view(),
    {
        let mut tmp: Option<Dict> = None;
        core::mem::swap(&mut self.prefs, &mut tmp);
        match tmp {
            Some(mut d) => {
                d.insert(val.0, DictType::from(val.1));
                self.prefs = Some(d);
            }
            None => {
                unreached()
            }
        }
    }

    /// Replaces the log settings with the given key/value pairs, bound
    /// left to right.
    pub fn logs(&mut self, val: &Vec<(String, String)>)
        ensures
            final(self).log_view() == Some(pairs_entries(val@)),
            final(self).profile_view() == old(self).profile_view(),
            final(self).args_view() == old(self).args_view(),
            final(self).prefs_view() == old(self).prefs_view(),
            old(self).wf() ==> final(self).wf(),
    {
        self.log = Some(Self::dict_of_pairs(val));
    }

    /// Binds one log setting.
    pub fn log(&mut self, val: (&str, &str))
        requires
            old(self).wf(),
        ensures
            final(self).wf(),
            final(self).log_view() == Some(
                obj_insert1(old(self).log_view()->0, val.0@, DictVal::Str(val.1@)),
            ),
            final(self).profile_view() == old(self).profile_view(),
            final(self).args_view() == old(self).args_view(),
            final(self).prefs_view() == old(self).prefs_view(),
    {
        let mut tmp: Option<Dict> = None;
        core::mem::swap(&mut self.log, &mut tmp);
        match tmp {
            Some(mut d) => {
                d.insert(val.0, DictType::from(val.1));
                self.log = Some(d);
            }
            None => {
                unreached()
            }
        }
    }

    /// The option groups [`DriverOptions::insert`] accepts.
    pub fn option_types() -> (r: Vec<&'static str>)
        ensures
            r@.len() == 3,
            r@[0]@ == "--arg"@,
            r@[1]@ == "--pref"@,
            r@[2]@ == "--log"@,
    {
        let mut v: Vec<&'static str> = Vec::new();
        v.push("--arg");
        v.push("--pref");
        v.push("--log");
        v
    }

    /// Dispatches one option into its group: `--arg` appends a bare
    /// argument, `--pref` binds a preference, `--log` binds a log setting.
    pub fn insert(&mut self, option_type: &str, option: (&str, &str))
        requires
            old(self).wf(),
            option_type@ == "--arg"@ || option_type@ == "--pref"@ || option_type@ == "--log"@,
        ensures
            final(self).wf(),
            option_type@ == "--arg"@ ==> final(self).args_view() == Some(
                old(self).args_view()->0.push(DictVal::Str(option.0@)),
            ) && final(self).prefs_view() == old(self).prefs_view() && final(self).log_view()
                == old(self).log_view(),
            option_type@ == "--pref"@ ==> final(self).prefs_view() == Some(
                obj_insert1(old(self).prefs_view()->0, option.0@, DictVal::Str(option.1@)),
            ) && final(self).args_view() == old(self).args_view() && final(self).log_view() == old(
                self,
            ).log_view(),
            option_type@ == "--log"@ ==> final(self).log_view() == Some(
                obj_insert1(old(self).log_view()->0, option.0@, DictVal::Str(option.1@)),
            ) && final(self).args_view() == old(self).args_view() && final(self).prefs_view()
                == old(self).prefs_view(),
            final(self).profile_view() == old(self).profile_view(),
    {
        proof {
            reveal_strlit("--arg");
            reveal_strlit("--pref");
            reveal_strlit("--log");
            assert("--arg"@.len() == 5);
            assert("--pref"@.len() == 6);
            assert("--log"@.len() == 5);
            assert("--arg"@[2] == 'a' && "--log"@[2] == 'l');
            assert("--arg"@ != "--pref"@);
            assert("--arg"@ != "--log"@);
            assert("--pref"@ != "--log"@);
        }
        let t = option_type.to_owned();
        if t == "--arg".to_owned() {
            self.arg(option.0);
        } else if t == "--pref".to_owned() {
            self.pref(option);
        } else {
            proof {
                assert(option_type@ == "--log"@);
            }
            self.log(option);
        }
    }

    /// The entries of the option object this configuration stands for: the
    /// profile, arguments, log settings and preferences, each included when
    /// chosen.
    pub open spec fn option_object_entries(&self) -> Seq<(Seq<char>, DictVal)> {
        let e0 = Seq::<(Seq<char>, DictVal)>::empty();
        let e1 = match self.profile_view() {
            Some(p) => obj_insert1(e0, "profile"@, DictVal::Str(p)),
            None => e0,
        };
        let e2 = match self.args_view() {
            Some(a) => obj_insert1(e1, "args"@, DictVal::Arr(a)),
            None => e1,
        };
        let e3 = match self.log_view() {
            Some(l) => obj_insert1(e2, "log"@, DictVal::Obj(l)),
            None => e2,
        };
        match self.prefs_view() {
            Some(p) => obj_insert1(e3, "prefs"@, DictVal::Obj(p)),
            None => e3,
        }
    }

    /// The capability object these options stand for: one `alwaysMatch`
    /// section requiring `moz:firefoxOptions` to be the option object.
    pub fn to_capabilities(&self) -> (r: Result<Capabilities, GeckError>)
        requires
            self.wf(),
        ensures
            r matches Ok(cap) && cap.wf() && cap.entries() == obj_insert1(
                Seq::<(Seq<char>, DictVal)>::empty(),
                "alwaysMatch"@,
                DictVal::Obj(seq![("moz:firefoxOptions"@, DictVal::Obj(self.option_object_entries()))]),
            ),
    {
        let mut cap = Capabilities::new();
        let mut option_dict = Dict::new();
        match &self.profile {
            Some(opt) => {
                option_dict.insert("profile", DictType::Str(opt.clone()));
            }
            None => {}
        }
        match &self.args {
            Some(args) => {
                let mut items: Vec<DictType> = Vec::new();
                let mut i: usize = 0;
                while i < args.len()
                    invariant
                        i <= args@.len(),
                        items@.len() == i,
                        forall|j: int|
                            0 <= j < i ==> crate::types::dict_view(#[trigger] items@[j])
                                == DictVal::Str(args@[j]@),
                    decreases args@.len() - i,
                {
                    items.push(DictType::Str(args[i].clone()));
                    i = i + 1;
                }
                proof {
                    crate::types::lemma_arr_view(items@);
                    lemma_strs_view(args@);
                    let lhs = crate::types::arr_view(items@);
                    let rhs = strs_view(args@);
                    assert forall|j: int| 0 <= j < lhs.len() implies lhs[j] == rhs[j] by {
                        assert(crate::types::dict_view(items@[j]) == DictVal::Str(args@[j]@));
                    }
                    assert(lhs =~= rhs);
                    assert forall|j: int| 0 <= j < lhs.len() implies val_wf(#[trigger] lhs[j]) by {
                        assert(lhs[j] == DictVal::Str(args@[j]@));
                        assert(val_wf(DictVal::Str(args@[j]@)));
                    }
                    assert(val_wf(DictVal::Arr(lhs)));
                }
                option_dict.insert("args", DictType::Arr(items));
            }
            None => {}
        }
        match &self.log {
            Some(logs) => {
                let d = logs.clone();
                proof {
                    crate::types::lemma_dict_wf(&d);
                }
                option_dict.insert("log", DictType::from(d));
            }
            None => {}
        }
        match &self.prefs {
            Some(prefs) => {
                let d = prefs.clone();
                proof {
                    crate::types::lemma_dict_wf(&d);
                }
                option_dict.insert("prefs", DictType::from(d));
            }
            None => {}
        }
        proof {
            crate::types::lemma_dict_wf(&option_dict);
        }
        cap.insert("alwaysMatch", "moz:firefoxOptions", DictType::from(option_dict));
        Ok(cap)
    }

    /// The dictionary the given key/value pairs build up, bound left to
    /// right.
    fn dict_of_pairs(val: &Vec<(String, String)>) -> (r: Dict)
        ensures
            r.wf(),
            r.entries() == pairs_entries(val@),
    {
        let mut d = Dict::new();
        let mut i: usize = 0;
        proof {
            assert(val@.take(0) =~= Seq::<(String, String)>::empty());
        }
        while i < val.len()
            invariant
                i <= val@.len(),
                d.wf(),
                d.entries() == pairs_entries(val@.take(i as int)),
            decreases val@.len() - i,
        {
            d.insert(val[i].0.as_str(), DictType::Str(val[i].1.clone()));
            proof {
                assert(val@.take(i + 1).drop_last() =~= val@.take(i as int));
                assert(val@.take(i + 1).last() == val@[i as int]);
            }
            i = i + 1;
        }
        proof {
            assert(val@.take(val@.len() as int) =~= val@);
        }
        d
    }
}

} // verus!
