use vstd::prelude::*;

use crate::address::{address_text, Address};
use crate::ptb::string_views;
use crate::stake::DelegatedStake;

verus! {

/// The Move type of the objects that record a stake.
pub open spec fn staked_sui_type() -> Seq<char> {
    "0x3::staking_pool::StakedSui"@
}

/// How many objects one page of a listing asks for.
pub const LIST_PAGE_SIZE: u32 = 500;

/// A request for one object, with the fields of it that are wanted.
#[derive(Debug)]
pub struct GetObjectRequest {
    /// The object's id in text form.
    pub object_id: String,
    /// The fields of the object that are asked for.
    pub read_mask: Vec<String>,
}

/// The mathematical value of a [`GetObjectRequest`].
pub struct GetObjectRequestView {
    pub object_id: Seq<char>,
    pub read_mask: Seq<Seq<char>>,
}

impl View for GetObjectRequest {
    type V = GetObjectRequestView;

    open spec fn view(&self) -> GetObjectRequestView {
        GetObjectRequestView {
            object_id: self.object_id@,
            read_mask: string_views(self.read_mask@),
        }
    }
}

/// A request for one page of the objects an address owns.
#[derive(Debug)]
pub struct ListOwnedObjectsRequest {
    /// The owner in text form.
    pub owner: String,
    /// How many objects the page may hold.
    pub page_size: u32,
    /// The fields of each object that are asked for.
    pub read_mask: Vec<String>,
    /// The Move type the objects must have.
    pub object_type: String,
    /// Where the page starts; none for the first page.
    pub page_token: Option<Vec<u8>>,
}

/// The mathematical value of a [`ListOwnedObjectsRequest`].
pub struct ListOwnedObjectsRequestView {
    pub owner: Seq<char>,
    pub page_size: u32,
    pub read_mask: Seq<Seq<char>>,
    pub object_type: Seq<char>,
    pub page_token: Option<Seq<u8>>,
}

/// The view of an optional byte vector.
pub open spec fn token_view(t: Option<Vec<u8>>) -> Option<Seq<u8>> {
    match t {
        Some(v) => Some(v@),
        None => None,
    }
}

impl View for ListOwnedObjectsRequest {
    type V = ListOwnedObjectsRequestView;

    open spec fn view(&self) -> ListOwnedObjectsRequestView {
        ListOwnedObjectsRequestView {
            owner: self.owner@,
            page_size: self.page_size,
            read_mask: string_views(self.read_mask@),
            object_type: self.object_type@,
            page_token: token_view(self.page_token),
        }
    }
}

/// The request for an object's contents.
pub open spec fn spec_get_object_request(id: Address) -> GetObjectRequestView {
    GetObjectRequestView { object_id: address_text(id@), read_mask: seq!["contents"@] }
}

/// The request for the page that `page_token` names (the first page when
/// there is none) of the staked objects `owner` owns, 500 at a time, with
/// their contents.
pub open spec fn spec_list_request(owner: Address, page_token: Option<Seq<u8>>) -> ListOwnedObjectsRequestView {
    ListOwnedObjectsRequestView {
        owner: address_text(owner@),
        page_size: LIST_PAGE_SIZE,
        read_mask: seq!["contents"@],
        object_type: staked_sui_type(),
        page_token,
    }
}

fn contents_mask() -> (res: Vec<String>)
    ensures
        string_views(res@) == seq!["contents"@],
{
    let mut mask: Vec<String> = Vec::new();
    mask.push("contents".to_owned());
    assert(string_views(mask@) =~= seq!["contents"@]);
    mask
}

/// The request for the contents of the object `id`.
pub fn get_object_request(id: &Address) -> (res: GetObjectRequest)
    ensures
        res@ == spec_get_object_request(*id),
{
    GetObjectRequest { object_id: id.to_hex(), read_mask: contents_mask() }
}

/// The contents to decode for a looked-up object: its own contents, or none
/// at all when the node did not return it.
pub fn object_contents(object: Option<Vec<u8>>) -> (res: Vec<Vec<u8>>)
    ensures
        res@.len() == 1,
        res@[0]@ == match object {
            Some(c) => c@,
            None => Seq::<u8>::empty(),
        },
{
    let contents = match object {
        Some(c) => c,
        None => Vec::new(),
    };
    let mut res: Vec<Vec<u8>> = Vec::new();
    res.push(contents);
    res
}

/// The single delegated stake made for a single object.
pub fn single_stake(stakes: Vec<DelegatedStake>) -> (res: DelegatedStake)
    requires
        stakes@.len() > 0,
    ensures
        res == stakes@[0],
{
    stakes[0]
}

/// Walks through the pages of an owner's staked objects, gathering the
/// delegated stakes made from each page.
#[derive(Debug)]
pub struct StakePager {
    owner: Address,
    request: ListOwnedObjectsRequest,
    stakes: Vec<DelegatedStake>,
}

/// The mathematical value of a [`StakePager`].
pub struct StakePagerView {
    pub owner: Address,
    pub request: ListOwnedObjectsRequestView,
    pub stakes: Seq<DelegatedStake>,
}

impl View for StakePager {
    type V = StakePagerView;

    closed spec fn view(&self) -> StakePagerView {
        StakePagerView { owner: self.owner, request: self.request@, stakes: self.stakes@ }
    }
}

/// The pager after a page: the page's stakes are appended, and the request
/// moves on to the next page when there is one.
pub open spec fn spec_page_done(
    p: StakePagerView,
    stakes: Seq<DelegatedStake>,
    next_page_token: Option<Seq<u8>>,
) -> StakePagerView {
    StakePagerView {
        owner: p.owner,
        request: match next_page_token {
            Some(_) => spec_list_request(p.owner, next_page_token),
            None => p.request,
        },
        stakes: p.stakes + stakes,
    }
}

/// The pager after a run of pages, each given by its stakes and the token of
/// the page after it.
pub open spec fn spec_walk(
    p: StakePagerView,
    pages: Seq<(Seq<DelegatedStake>, Option<Seq<u8>>)>,
) -> StakePagerView
    decreases pages.len(),
{
    if pages.len() == 0 {
        p
    } else {
        let before = spec_walk(p, pages.drop_last());
        spec_page_done(before, pages.last().0, pages.last().1)
    }
}

/// The stakes of a run of pages, one page after the other.
pub open spec fn concat_pages(pages: Seq<(Seq<DelegatedStake>, Option<Seq<u8>>)>) -> Seq<
    DelegatedStake,
>
    decreases pages.len(),
{
    if pages.len() == 0 {
        Seq::empty()
    } else {
        concat_pages(pages.drop_last()) + pages.last().0
    }
}

/// Walking through pages loses no stake and reorders none: what is gathered
/// is what was gathered before followed by every page's stakes in page
/// order, and the walk stays with the same owner.
pub proof fn lemma_walk_gathers_all_pages(
    p: StakePagerView,
    pages: Seq<(Seq<DelegatedStake>, Option<Seq<u8>>)>,
)
    ensures
        spec_walk(p, pages).stakes == p.stakes + concat_pages(pages),
        spec_walk(p, pages).owner == p.owner,
    decreases pages.len(),
{
    if pages.len() == 0 {
        assert(p.stakes + concat_pages(pages) =~= p.stakes);
    } else {
        lemma_walk_gathers_all_pages(p, pages.drop_last());
        assert(p.stakes + concat_pages(pages) =~= (p.stakes + concat_pages(pages.drop_last()))
            + pages.last().0);
    }
}

/// Every page of a listing is asked for in the same way as the first: the
/// request for any page differs from the first page's request only in its
/// page token, and always asks for the staked objects of the owner, 500 at a
/// time, with their contents.
pub proof fn lemma_list_request_only_token_varies(owner: Address, page_token: Option<Seq<u8>>)
    ensures
        spec_list_request(owner, page_token).page_token == page_token,
        spec_list_request(owner, page_token).owner == spec_list_request(owner, None).owner,
        spec_list_request(owner, page_token).page_size == spec_list_request(owner, None).page_size,
        spec_list_request(owner, page_token).read_mask == spec_list_request(owner, None).read_mask,
        spec_list_request(owner, page_token).object_type == spec_list_request(
            owner,
            None,
        ).object_type,
        spec_list_request(owner, page_token).owner == address_text(owner@),
        spec_list_request(owner, page_token).page_size == 500,
        spec_list_request(owner, page_token).read_mask == seq!["contents"@],
        spec_list_request(owner, page_token).object_type == "0x3::staking_pool::StakedSui"@,
{
}

/// Looking up one object names it as the listing names its owner, in the
/// address's text form, and asks for the same field, `contents`.
pub proof fn lemma_get_object_request_like_listing(id: Address)
    ensures
        spec_get_object_request(id).object_id == address_text(id@),
        spec_get_object_request(id).object_id == spec_list_request(id, None).owner,
        spec_get_object_request(id).read_mask == spec_list_request(id, None).read_mask,
        spec_get_object_request(id).read_mask == seq!["contents"@],
{
}

/// However many pages a walk goes through, the request it ends with is the
/// first page's request for its owner with, at most, another page token:
/// the owner, the page size of 500, the read mask `contents` and the object
/// type stay; and a page that names a next page moves the request to it.
pub proof fn lemma_walk_keeps_request(
    p: StakePagerView,
    pages: Seq<(Seq<DelegatedStake>, Option<Seq<u8>>)>,
)
    requires
        p.request == spec_list_request(p.owner, p.request.page_token),
    ensures
        spec_walk(p, pages).request.owner == address_text(p.owner@),
        spec_walk(p, pages).request.page_size == 500,
        spec_walk(p, pages).request.read_mask == seq!["contents"@],
        spec_walk(p, pages).request.object_type == "0x3::staking_pool::StakedSui"@,
        pages.len() > 0 && pages.last().1 is Some ==> spec_walk(p, pages).request.page_token
            == pages.last().1,
    decreases pages.len(),
{
    lemma_list_request_only_token_varies(p.owner, p.request.page_token);
    if pages.len() > 0 {
        lemma_walk_gathers_all_pages(p, pages.drop_last());
        lemma_walk_keeps_request(p, pages.drop_last());
        lemma_list_request_only_token_varies(p.owner, pages.last().1);
    }
}

impl StakePager {
    /// The pager's request is always the listing request for its owner.
    pub closed spec fn well_formed(&self) -> bool {
        self.request@ == spec_list_request(self.owner, self.request@.page_token)
    }

    /// A pager for the staked objects of `owner`, at the first page, with
    /// nothing gathered yet.
    pub fn new(owner: &Address) -> (res: StakePager)
        ensures
            res.well_formed(),
            res@.owner == *owner,
            res@.request == spec_list_request(*owner, None),
            res@.stakes == Seq::<DelegatedStake>::empty(),
    {
        let request = ListOwnedObjectsRequest {
            owner: owner.to_hex(),
            page_size: LIST_PAGE_SIZE,
            read_mask: contents_mask(),
            object_type: "0x3::staking_pool::StakedSui".to_owned(),
            page_token: None,
        };
        StakePager { owner: *owner, request, stakes: Vec::new() }
    }

    /// The request for the next page.
    pub fn request(&self) -> (res: &ListOwnedObjectsRequest)
        ensures
            res@ == self@.request,
    {
        &self.request
    }

    /// Takes in the delegated stakes made from the page just fetched and the
    /// token of the page after it; returns whether there is such a page.
    pub fn page_done(&mut self, stakes: Vec<DelegatedStake>, next_page_token: Option<Vec<u8>>) -> (more: bool)
        requires
            old(self).well_formed(),
        ensures
            final(self).well_formed(),
            final(self)@ == spec_page_done(old(self)@, stakes@, token_view(next_page_token)),
            more == next_page_token is Some,
    {
        let mut stakes = stakes;
        self.stakes.append(&mut stakes);
        match next_page_token {
            Some(token) => {
                self.request.page_token = Some(token);
                true
            },
            None => false,
        }
    }

    /// The delegated stakes gathered so far, in page order.
    pub fn into_stakes(self) -> (res: Vec<DelegatedStake>)
        ensures
            res@ == self@.stakes,
    {
        self.stakes
    }
}

} // verus!
