use crate::error::{ErrorKind, NipartError};
use crate::text_order::{sort_list, sorted_list};
use crate::views::{
    clone_opt_strings, clone_strings, join_texts, joined, opt_vec_view, opt_view, strings_eq,
    strings_without, vec_view, without_text,
};
use vstd::prelude::*;
use vstd::string::StringExecFns;

verus! {

/// The settings of the name resolver.
#[derive(Debug, PartialEq, Eq)]
pub struct DnsClientState {
    pub server: Option<Vec<String>>,
    pub search: Option<Vec<String>>,
    pub options: Option<Vec<String>>,
}

/// Mathematical model of the settings of the name resolver.
pub struct DnsClientModel {
    pub server: Option<Seq<Seq<char>>>,
    pub search: Option<Seq<Seq<char>>>,
    pub options: Option<Seq<Seq<char>>>,
}

impl View for DnsClientState {
    type V = DnsClientModel;

    open spec fn view(&self) -> DnsClientModel {
        DnsClientModel {
            server: opt_vec_view(self.server),
            search: opt_vec_view(self.search),
            options: opt_vec_view(self.options),
        }
    }
}

impl Clone for DnsClientState {
    fn clone(&self) -> (r: Self)
        ensures
            r@ == self@,
    {
        DnsClientState {
            server: clone_opt_strings(&self.server),
            search: clone_opt_strings(&self.search),
            options: clone_opt_strings(&self.options),
        }
    }
}

/// The name resolution of a state.
#[derive(Debug, PartialEq, Eq)]
pub struct DnsState {
    pub config: Option<DnsClientState>,
}

impl View for DnsState {
    type V = Option<DnsClientModel>;

    open spec fn view(&self) -> Option<DnsClientModel> {
        opt_view(self.config)
    }
}

impl Clone for DnsState {
    fn clone(&self) -> (r: Self)
        ensures
            r@ == self@,
    {
        DnsState {
            config: match &self.config {
                Some(c) => Some(c.clone()),
                None => None,
            },
        }
    }
}

/// A list that may be missing, without its empty texts.
pub open spec fn without_empty(o: Option<Seq<Seq<char>>>) -> Option<Seq<Seq<char>>> {
    match o {
        Some(l) => Some(without_text(l, Seq::empty())),
        None => None,
    }
}

/// The name resolution in normal form: servers and search domains hold no
/// empty text.
pub open spec fn dns_sanitized(d: Option<DnsClientModel>) -> Option<DnsClientModel> {
    match d {
        Some(c) => Some(
            DnsClientModel {
                server: without_empty(c.server),
                search: without_empty(c.search),
                options: c.options,
            },
        ),
        None => None,
    }
}

fn drop_empty(o: &Option<Vec<String>>) -> (r: Option<Vec<String>>)
    ensures
        opt_vec_view(r) == without_empty(opt_vec_view(*o)),
{
    match o {
        Some(l) => {
            proof {
                reveal_strlit("");
                assert(""@ =~= Seq::<char>::empty());
            }
            Some(strings_without(l, ""))
        },
        None => None,
    }
}

impl DnsState {
    /// Brings the name resolution into normal form.
    pub fn sanitize(&mut self) -> (r: Result<(), NipartError>)
        ensures
            r is Ok,
            final(self)@ == dns_sanitized(old(self)@),
    {
        match self.config.take() {
            Some(c) => {
                self.config = Some(
                    DnsClientState {
                        server: drop_empty(&c.server),
                        search: drop_empty(&c.search),
                        options: c.options,
                    },
                );
            },
            None => {},
        }
        Ok(())
    }
}

/// The reconciliation of the name resolution that is asked for with the one
/// that is observed.
#[derive(Debug)]
pub struct MergedDnsState {
    pub desired: Option<DnsState>,
    pub current: DnsState,
    pub servers: Vec<String>,
    pub searches: Vec<String>,
    pub options: Vec<String>,
}

/// Mathematical model of the reconciliation of the name resolution.
pub struct MergedDnsModel {
    pub desired: Option<Option<DnsClientModel>>,
    pub current: Option<DnsClientModel>,
    pub servers: Seq<Seq<char>>,
    pub searches: Seq<Seq<char>>,
    pub options: Seq<Seq<char>>,
}

impl View for MergedDnsState {
    type V = MergedDnsModel;

    open spec fn view(&self) -> MergedDnsModel {
        MergedDnsModel {
            desired: opt_view(self.desired),
            current: self.current@,
            servers: vec_view(self.servers),
            searches: vec_view(self.searches),
            options: vec_view(self.options),
        }
    }
}

/// The list, or the empty list where it is missing.
pub open spec fn or_empty(o: Option<Seq<Seq<char>>>) -> Seq<Seq<char>> {
    match o {
        Some(l) => l,
        None => Seq::empty(),
    }
}

/// The servers of a name resolution, none where it says none.
pub open spec fn servers_of(d: Option<DnsClientModel>) -> Option<Seq<Seq<char>>> {
    match d {
        Some(c) => c.server,
        None => None,
    }
}

pub open spec fn searches_of(d: Option<DnsClientModel>) -> Option<Seq<Seq<char>>> {
    match d {
        Some(c) => c.search,
        None => None,
    }
}

pub open spec fn options_of(d: Option<DnsClientModel>) -> Option<Seq<Seq<char>>> {
    match d {
        Some(c) => c.options,
        None => None,
    }
}

/// What is asked for where it says something, else what is observed.
pub open spec fn asked_or_observed(
    asked: Option<Seq<Seq<char>>>,
    observed: Option<Seq<Seq<char>>>,
) -> Seq<Seq<char>> {
    match asked {
        Some(l) => l,
        None => or_empty(observed),
    }
}

impl MergedDnsModel {
    /// The reconciliation of what is asked for, if anything, with what is
    /// observed: each list is the one asked for, else the one observed.
    pub open spec fn of(
        desired: Option<Option<DnsClientModel>>,
        current: Option<DnsClientModel>,
    ) -> MergedDnsModel {
        let asked = match desired {
            Some(d) => d,
            None => None,
        };
        MergedDnsModel {
            desired,
            current,
            servers: asked_or_observed(servers_of(asked), servers_of(current)),
            searches: asked_or_observed(searches_of(asked), searches_of(current)),
            options: asked_or_observed(options_of(asked), options_of(current)),
        }
    }

    /// Whether a list of the reconciliation differs from the one observed.
    pub open spec fn is_changed(self) -> bool {
        self.servers != or_empty(servers_of(self.current)) || self.searches != or_empty(
            searches_of(self.current),
        ) || self.options != or_empty(options_of(self.current))
    }
}

/// What the check of the name resolution comes to.
pub enum DnsVerdict {
    Pass,
    /// Nothing is observed.
    EmptyConfig,
    /// The servers, the search domains or the options are not the ones
    /// asked for.
    Servers,
    Searches,
    Options,
}

/// Whether the observed list `observed` fails to be the list `wanted`: the
/// lists differ, and it is not so that nothing is observed where nothing is
/// wanted.
pub open spec fn list_differs(wanted: Seq<Seq<char>>, observed: Option<Seq<Seq<char>>>) -> bool {
    or_empty(observed) != wanted && !(observed is None && wanted.len() == 0)
}

/// What the check of the reconciliation `m` against the observed name
/// resolution comes to. A reconciliation that changes nothing passes. Else
/// the observed name resolution, in normal form, has to hold the servers
/// and the search domains in their order, and the options in any order:
/// the options are compared once both lists are sorted.
pub open spec fn dns_verdict(m: MergedDnsModel, current: Option<DnsClientModel>) -> DnsVerdict {
    if !m.is_changed() {
        DnsVerdict::Pass
    } else {
        match dns_sanitized(current) {
            None => DnsVerdict::EmptyConfig,
            Some(c) => if list_differs(m.servers, c.server) {
                DnsVerdict::Servers
            } else if list_differs(m.searches, c.search) {
                DnsVerdict::Searches
            } else if sorted_list(m.options) != sorted_list(or_empty(c.options)) {
                DnsVerdict::Options
            } else {
                DnsVerdict::Pass
            },
        }
    }
}

pub open spec fn dns_mismatch_text(what: Seq<char>, wanted: Seq<Seq<char>>, got: Seq<Seq<char>>) -> Seq<
    char,
> {
    "Failed to apply DNS config: desire "@ + what + " '"@ + joined(wanted, " "@) + "', got '"@
        + joined(got, " "@) + "'"@
}

/// What the failed check says.
pub open spec fn dns_verdict_text(m: MergedDnsModel, current: Option<DnsClientModel>) -> Seq<char> {
    let c = dns_sanitized(current);
    match dns_verdict(m, current) {
        DnsVerdict::Pass => Seq::empty(),
        DnsVerdict::EmptyConfig => "Current DNS config is empty"@,
        DnsVerdict::Servers => dns_mismatch_text(
            "name servers"@,
            m.servers,
            or_empty(servers_of(c)),
        ),
        DnsVerdict::Searches => dns_mismatch_text(
            "searches"@,
            m.searches,
            or_empty(searches_of(c)),
        ),
        DnsVerdict::Options => dns_mismatch_text(
            "options"@,
            sorted_list(m.options),
            sorted_list(or_empty(options_of(c))),
        ),
    }
}

fn or_empty_copy(o: &Option<Vec<String>>) -> (r: Vec<String>)
    ensures
        vec_view(r) == or_empty(opt_vec_view(*o)),
{
    match o {
        Some(l) => clone_strings(l),
        None => {
            let r: Vec<String> = Vec::new();
            assert(vec_view(r) =~= Seq::<Seq<char>>::empty());
            r
        },
    }
}

fn dns_mismatch(what: &str, wanted: &Vec<String>, got: &Vec<String>) -> (r: NipartError)
    ensures
        r.kind == ErrorKind::VerificationError,
        r.msg@ == dns_mismatch_text(what@, vec_view(*wanted), vec_view(*got)),
{
    let mut msg = "Failed to apply DNS config: desire ".to_owned();
    msg.append(what);
    msg.append(" '");
    msg.append(join_texts(wanted, " ").as_str());
    msg.append("', got '");
    msg.append(join_texts(got, " ").as_str());
    msg.append("'");
    assert(msg@ =~= dns_mismatch_text(what@, vec_view(*wanted), vec_view(*got)));
    NipartError::new(ErrorKind::VerificationError, msg)
}

fn list_is_off(wanted: &Vec<String>, observed: &Option<Vec<String>>) -> (r: bool)
    ensures
        r == list_differs(vec_view(*wanted), opt_vec_view(*observed)),
{
    let got = or_empty_copy(observed);
    !strings_eq(&got, wanted) && !(observed.is_none() && wanted.len() == 0)
}

impl MergedDnsState {
    /// The reconciliation of the name resolution asked for, if any, with
    /// the one observed.
    pub fn new(desired: Option<DnsState>, current: DnsState) -> (r: Self)
        ensures
            r@ == MergedDnsModel::of(opt_view(desired), current@),
    {
        let none: Option<Vec<String>> = None;
        let (asked_server, asked_search, asked_options) = match &desired {
            Some(d) => match &d.config {
                Some(c) => (
                    clone_opt_strings(&c.server),
                    clone_opt_strings(&c.search),
                    clone_opt_strings(&c.options),
                ),
                None => (None, None, None),
            },
            None => (None, None, None),
        };
        let (cur_server, cur_search, cur_options) = match &current.config {
            Some(c) => (
                or_empty_copy(&c.server),
                or_empty_copy(&c.search),
                or_empty_copy(&c.options),
            ),
            None => (or_empty_copy(&none), or_empty_copy(&none), or_empty_copy(&none)),
        };
        let servers = match asked_server {
            Some(l) => l,
            None => cur_server,
        };
        let searches = match asked_search {
            Some(l) => l,
            None => cur_search,
        };
        let options = match asked_options {
            Some(l) => l,
            None => cur_options,
        };
        MergedDnsState { desired, current, servers, searches, options }
    }

    /// Whether a list of the reconciliation differs from the one observed.
    pub fn is_changed(&self) -> (r: bool)
        ensures
            r == self@.is_changed(),
    {
        let none: Option<Vec<String>> = None;
        let (cur_server, cur_search, cur_options) = match &self.current.config {
            Some(c) => (
                or_empty_copy(&c.server),
                or_empty_copy(&c.search),
                or_empty_copy(&c.options),
            ),
            None => (or_empty_copy(&none), or_empty_copy(&none), or_empty_copy(&none)),
        };
        !strings_eq(&self.servers, &cur_server) || !strings_eq(&self.searches, &cur_search)
            || !strings_eq(&self.options, &cur_options)
    }

    /// Checks the observed name resolution `current` against the
    /// reconciliation. A reconciliation that changes nothing passes. Else
    /// `current`, in normal form, has to hold the servers and the search
    /// domains in their order, and the options in any order. Fails with
    /// `VerificationError`, and says what is not so, where it does not; of
    /// options it shows both lists sorted.
    pub fn verify(&self, current: &DnsState) -> (r: Result<(), NipartError>)
        ensures
            match r {
                Ok(_) => dns_verdict(self@, current@) is Pass,
                Err(e) => !(dns_verdict(self@, current@) is Pass) && e.kind
                    == ErrorKind::VerificationError && e.msg@ == dns_verdict_text(
                    self@,
                    current@,
                ),
            },
    {
        if !self.is_changed() {
            return Ok(());
        }
        let mut current = current.clone();
        let _ = current.sanitize();
        let cur_conf = match current.config.as_ref() {
            Some(c) => c,
            None => {
                return Err(
                    NipartError::new(
                        ErrorKind::VerificationError,
                        "Current DNS config is empty".to_owned(),
                    ),
                );
            },
        };
        if list_is_off(&self.servers, &cur_conf.server) {
            let cur_srvs = or_empty_copy(&cur_conf.server);
            return Err(dns_mismatch("name servers", &self.servers, &cur_srvs));
        }
        if list_is_off(&self.searches, &cur_conf.search) {
            let cur_schs = or_empty_copy(&cur_conf.search);
            return Err(dns_mismatch("searches", &self.searches, &cur_schs));
        }
        let des_opts = sort_list(&self.options);
        let cur_opts = sort_list(&or_empty_copy(&cur_conf.options));
        if !strings_eq(&des_opts, &cur_opts) {
            return Err(dns_mismatch("options", &des_opts, &cur_opts));
        }
        Ok(())
    }
}

} // verus!
