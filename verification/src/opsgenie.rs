//! Types exchanged with the paging service, and the verified compute half of
//! the client: turning a schedule's participant list into the current on-call
//! user IDs. The HTTP calls themselves happen outside this crate.
use vstd::prelude::*;
use vstd::string::*;

verus! {

/// Failure of a paging-service call, as the rest of the crate sees it.
#[derive(Debug)]
pub enum Error {
    /// The request never produced a response; carries the transport error text.
    RequestError(String),
    /// The service answered with this non-success HTTP status code.
    HttpErrorCode(u16),
}

/// An on-call schedule: the subject whose roster drives downstream state.
#[derive(Debug, Clone)]
pub struct Oncall {
    pub id: String,
    pub name: String,
}

/// A paging-service user.
#[derive(Debug, Clone)]
pub struct User {
    pub id: String,
    pub username: String,
    pub full_name: String,
}

/// One participant of a schedule's current on-call roster. `typ` tells
/// users apart from escalations and teams.
#[derive(Debug, Clone)]
pub struct OncallParticipant {
    pub id: String,
    pub typ: String,
}

/// A schedule's current on-call roster as the paging service reports it.
#[derive(Debug, Clone)]
pub struct CurrentOncall {
    pub on_call_participants: Vec<OncallParticipant>,
}

/// The IDs of the participants whose `typ` is `"user"`, in order.
pub open spec fn participant_ids_spec(ps: Seq<OncallParticipant>) -> Seq<Seq<char>>
    decreases ps.len(),
{
    if ps.len() == 0 {
        Seq::empty()
    } else {
        let rest = participant_ids_spec(ps.drop_last());
        if ps.last().typ@ == "user"@ {
            rest.push(ps.last().id@)
        } else {
            rest
        }
    }
}

/// Keep exactly the participants that are users, dropping escalations and
/// teams, and return their IDs in the order the service listed them.
pub fn participant_user_ids(ps: &Vec<OncallParticipant>) -> (r: Vec<String>)
    ensures
        r.deep_view() == participant_ids_spec(ps@),
{
    let mut out: Vec<String> = Vec::new();
    let mut k: usize = 0;
    while k < ps.len()
        invariant
            k <= ps@.len(),
            out.deep_view() == participant_ids_spec(ps@.take(k as int)),
        decreases ps@.len() - k,
    {
        let p = &ps[k];
        if crate::text::str_eq(p.typ.as_str(), "user") {
            out.push(p.id.clone());
        }
        proof {
            assert(ps@.take(k + 1).drop_last() =~= ps@.take(k as int));
            assert(ps@.take(k + 1).last() == ps@[k as int]);
        }
        k += 1;
    }
    proof {
        assert(ps@.take(ps@.len() as int) =~= ps@);
    }
    out
}

/// Pairs of (schedule id, schedule), ready to key a cache snapshot by id.
pub open spec fn oncalls_by_id_spec(list: Seq<Oncall>) -> Seq<(Seq<char>, Oncall)> {
    list.map_values(|o: Oncall| (o.id@, o))
}

/// Key each schedule by its own id, keeping the order.
pub fn oncalls_by_id(list: Vec<Oncall>) -> (r: Vec<(String, Oncall)>)
    ensures
        r@.len() == list@.len(),
        forall|k: int|
            0 <= k < r@.len() ==> r@[k].0@ == list@[k].id@ && r@[k].1 == list@[k],
{
    let ghost list0 = list@;
    let mut items = list;
    let mut out: Vec<(String, Oncall)> = Vec::new();
    while items.len() > 0
        invariant
            out@.len() + items@.len() == list0.len(),
            forall|k: int|
                0 <= k < out@.len() ==> out@[k].0@ == list0[k].id@ && out@[k].1 == list0[k],
            forall|k: int| 0 <= k < items@.len() ==> items@[k] == list0[out@.len() + k],
        decreases items@.len(),
    {
        let item = items.remove(0);
        let key = item.id.clone();
        out.push((key, item));
    }
    out
}

} // verus!
