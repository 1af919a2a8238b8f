//! The catalog of resource kinds: what the control plane lists, brought into one flat
//! sequence of descriptors.
//!
//! Listing is done by the caller. It hands over the groups and the resource lists as it
//! received them; this module says which group-versions are to be listed and how the lists
//! merge into the catalog.

use crate::text::{
    chars_of, contains_char, copy_opt_text, copy_texts, find_sep, first_sep, has_char,
    lemma_first_sep, lemma_split_head, split,
};
use vstd::prelude::*;

verus! {

/// One resource kind that the control plane exposes.
#[derive(Debug, PartialEq, Eq)]
pub struct ResourceDescriptor {
    /// API group; absent for the legacy API.
    pub group: Option<String>,
    /// API version.
    pub version: Option<String>,
    /// Singular display name.
    pub kind: String,
    /// Plural name, as authorization queries state it; a subresource is written
    /// `resource/subresource`.
    pub name: String,
    /// Verbs the control plane reports as valid for this kind, lower case.
    pub verbs: Vec<String>,
}

/// What a `ResourceDescriptor` holds.
pub struct ResourceModel {
    pub group: Option<Seq<char>>,
    pub version: Option<Seq<char>>,
    pub kind: Seq<char>,
    pub name: Seq<char>,
    pub verbs: Seq<Seq<char>>,
}

impl ResourceModel {
    /// A resource whose name holds a path separator is a subresource.
    pub open spec fn is_subresource(self) -> bool {
        has_char(self.name, '/')
    }
}

impl View for ResourceDescriptor {
    type V = ResourceModel;

    open spec fn view(&self) -> ResourceModel {
        ResourceModel {
            group: self.group.deep_view(),
            version: self.version.deep_view(),
            kind: self.kind@,
            name: self.name@,
            verbs: self.verbs.deep_view(),
        }
    }
}

impl DeepView for ResourceDescriptor {
    type V = ResourceModel;

    open spec fn deep_view(&self) -> ResourceModel {
        self@
    }
}

impl Clone for ResourceDescriptor {
    fn clone(&self) -> (r: Self)
        ensures
            r@ == self@,
    {
        ResourceDescriptor {
            group: copy_opt_text(&self.group),
            version: copy_opt_text(&self.version),
            kind: self.kind.clone(),
            name: self.name.clone(),
            verbs: copy_texts(&self.verbs),
        }
    }
}

impl ResourceDescriptor {
    /// Whether this is a subresource, such as `pods/log`.
    pub fn is_subresource(&self) -> (r: bool)
        ensures
            r == self@.is_subresource(),
            r == has_char(self.name@, '/'),
    {
        contains_char(self.name.as_str(), '/')
    }
}

/// An API group as the control plane announces it.
#[derive(Debug, PartialEq, Eq)]
pub struct ApiGroup {
    /// Name of the group.
    pub name: String,
    /// The `group/version` that the control plane prefers for this group, if it names one.
    pub preferred_version: Option<String>,
}

/// What an `ApiGroup` holds.
pub struct ApiGroupModel {
    pub name: Seq<char>,
    pub preferred_version: Option<Seq<char>>,
}

impl View for ApiGroup {
    type V = ApiGroupModel;

    open spec fn view(&self) -> ApiGroupModel {
        ApiGroupModel { name: self.name@, preferred_version: self.preferred_version.deep_view() }
    }
}

impl DeepView for ApiGroup {
    type V = ApiGroupModel;

    open spec fn deep_view(&self) -> ApiGroupModel {
        self@
    }
}

/// The resource kinds that the control plane lists under one group-version.
#[derive(Debug, PartialEq, Eq)]
pub struct ResourceList {
    /// `group/version`, or a bare `version` for the legacy API.
    pub group_version: String,
    /// The kinds, as listed.
    pub resources: Vec<ResourceDescriptor>,
}

/// What a `ResourceList` holds.
pub struct ResourceListModel {
    pub group_version: Seq<char>,
    pub resources: Seq<ResourceModel>,
}

impl View for ResourceList {
    type V = ResourceListModel;

    open spec fn view(&self) -> ResourceListModel {
        ResourceListModel {
            group_version: self.group_version@,
            resources: self.resources.deep_view(),
        }
    }
}

impl DeepView for ResourceList {
    type V = ResourceListModel;

    open spec fn deep_view(&self) -> ResourceListModel {
        self@
    }
}

/// The group that `group/version` names; a bare `version` names none.
pub open spec fn group_of(group_version: Seq<char>) -> Option<Seq<char>> {
    let parts = split(group_version, '/');
    if parts.len() > 1 {
        Some(parts[0])
    } else {
        None
    }
}

/// The version that `group/version`, or a bare `version`, names.
pub open spec fn version_of(group_version: Seq<char>) -> Option<Seq<char>> {
    let parts = split(group_version, '/');
    if parts.len() > 1 {
        Some(parts[1])
    } else {
        Some(parts[0])
    }
}

/// Splits `group/version` into its group and its version. A text without `/` is a bare
/// version, of the legacy API; what follows a second `/` is ignored.
pub fn extract_version_group(group_version: String) -> (r: (Option<String>, Option<String>))
    ensures
        r.0.deep_view() == group_of(group_version@),
        r.1.deep_view() == version_of(group_version@),
{
    let text = group_version.as_str();
    let chars = chars_of(text);
    let k = find_sep(&chars, 0, '/');
    proof {
        assert(chars@.skip(0) =~= chars@);
        lemma_split_head(chars@, '/');
        lemma_first_sep(chars@, '/');
    }
    if k < chars.len() {
        let end = find_sep(&chars, k + 1, '/');
        proof {
            let rest = chars@.skip(k + 1);
            lemma_first_sep(rest, '/');
            assert(chars@.take(k as int) =~= text@.subrange(0, k as int));
            assert(rest.take(end - (k + 1)) =~= text@.subrange(k + 1, end as int));
        }
        let group = text.substring_char(0, k).to_owned();
        let version = text.substring_char(k + 1, end).to_owned();
        (Some(group), Some(version))
    } else {
        proof {
            assert(chars@.take(k as int) =~= text@);
        }
        (None, Some(text.to_owned()))
    }
}

/// The version that `group/version`, or a bare `version`, names.
pub fn extract_version(group_version: String) -> (r: Option<String>)
    ensures
        r.deep_view() == version_of(group_version@),
{
    extract_version_group(group_version).1
}

/// The group that `group/version` names; a bare `version` names none.
pub fn extract_group(group_version: String) -> (r: Option<String>)
    ensures
        r.deep_view() == group_of(group_version@),
{
    extract_version_group(group_version).0
}

/// The group-versions whose resources are to be listed: the preferred one of each group
/// that names one, in the order of the groups.
pub fn preferred_group_versions(groups: &Vec<ApiGroup>) -> (r: Vec<String>)
    ensures
        r.deep_view() == groups.deep_view().filter_map(|g: ApiGroupModel| g.preferred_version),
{
    let ghost pick = |g: ApiGroupModel| g.preferred_version;
    let mut r: Vec<String> = Vec::new();
    let mut i: usize = 0;
    assert(groups.deep_view().take(0) =~= Seq::<ApiGroupModel>::empty());
    assert(r.deep_view() =~= Seq::<Seq<char>>::empty());
    while i < groups.len()
        invariant
            i <= groups.len(),
            pick == |g: ApiGroupModel| g.preferred_version,
            r.deep_view() == groups.deep_view().take(i as int).filter_map(pick),
        decreases groups.len() - i,
    {
        proof {
            groups.deep_view().lemma_filter_map_take_succ(pick, i as int);
        }
        let ghost before = r.deep_view();
        match &groups[i].preferred_version {
            Some(v) => {
                r.push(v.clone());
                assert(r.deep_view() =~= before + seq![v@]);
            },
            None => {},
        }
        i += 1;
    }
    assert(groups.deep_view().take(groups.len() as int) =~= groups.deep_view());
    r
}

/// The version of the legacy API whose resources are to be listed: the first that the
/// control plane names.
pub fn core_version(versions: &Vec<String>) -> (r: Option<String>)
    ensures
        r.deep_view() == if versions.len() > 0 {
            Some(versions@[0]@)
        } else {
            None
        },
{
    if versions.len() > 0 {
        Some(versions[0].clone())
    } else {
        None
    }
}

/// A listed resource, with the group and the version of the list that it came in.
pub open spec fn stamped(resource: ResourceModel, group_version: Seq<char>) -> ResourceModel {
    ResourceModel {
        group: group_of(group_version),
        version: version_of(group_version),
        kind: resource.kind,
        name: resource.name,
        verbs: resource.verbs,
    }
}

/// The descriptors that one list contributes to the catalog.
pub open spec fn list_entries(list: ResourceListModel) -> Seq<ResourceModel> {
    list.resources.map_values(|r: ResourceModel| stamped(r, list.group_version))
}

/// The descriptors that a sequence of lists contributes, list after list.
pub open spec fn entries(lists: Seq<ResourceListModel>) -> Seq<ResourceModel> {
    lists.map_values(|l: ResourceListModel| list_entries(l)).flatten()
}

/// The catalog: the entries of the grouped lists, then those of the legacy lists.
pub open spec fn catalog_of(
    grouped: Seq<ResourceListModel>,
    core: Seq<ResourceListModel>,
) -> Seq<ResourceModel> {
    entries(grouped) + entries(core)
}

/// Adds the entries of `list` to `out`.
fn push_entries(out: &mut Vec<ResourceDescriptor>, list: &ResourceList)
    ensures
        final(out).deep_view() == old(out).deep_view() + list_entries(list@),
{
    let ghost start = out.deep_view();
    let mut i: usize = 0;
    assert(out.deep_view() =~= start + list_entries(list@).take(0));
    while i < list.resources.len()
        invariant
            i <= list.resources.len(),
            out.deep_view() == start + list_entries(list@).take(i as int),
        decreases list.resources.len() - i,
    {
        let resource = &list.resources[i];
        let (group, version) = extract_version_group(list.group_version.clone());
        let entry = ResourceDescriptor {
            group,
            version,
            kind: resource.kind.clone(),
            name: resource.name.clone(),
            verbs: copy_texts(&resource.verbs),
        };
        assert(entry@ == list_entries(list@)[i as int]);
        let ghost before = out.deep_view();
        out.push(entry);
        assert(out.deep_view() =~= before + seq![entry@]);
        assert(list_entries(list@).take(i + 1) =~= list_entries(list@).take(i as int) + seq![
            entry@,
        ]);
        i += 1;
    }
    assert(list_entries(list@).take(list.resources.len() as int) =~= list_entries(list@));
}

/// Adds the entries of every list of `lists` to `out`.
fn push_all_entries(out: &mut Vec<ResourceDescriptor>, lists: &Vec<ResourceList>)
    ensures
        final(out).deep_view() == old(out).deep_view() + entries(lists.deep_view()),
{
    let ghost start = out.deep_view();
    let ghost each = |l: ResourceListModel| list_entries(l);
    let mut i: usize = 0;
    assert(lists.deep_view().take(0).map_values(each) =~= Seq::<Seq<ResourceModel>>::empty());
    assert(out.deep_view() =~= start + entries(lists.deep_view().take(0)));
    while i < lists.len()
        invariant
            i <= lists.len(),
            each == |l: ResourceListModel| list_entries(l),
            out.deep_view() == start + entries(lists.deep_view().take(i as int)),
        decreases lists.len() - i,
    {
        proof {
            let done = lists.deep_view().take(i as int).map_values(each);
            let next = list_entries(lists@[i as int]@);
            assert(lists.deep_view().take(i + 1).map_values(each) =~= done.push(next));
            done.lemma_flatten_push(next);
        }
        push_entries(out, &lists[i]);
        i += 1;
    }
    assert(lists.deep_view().take(lists.len() as int) =~= lists.deep_view());
}

/// The catalog of the resource kinds discovered, from what the control plane listed:
/// each resource kind once for the list it came in, with the group and the version taken
/// from that list's group-version; the grouped lists first, then the legacy ones.
pub fn discover_resources(grouped: &Vec<ResourceList>, core: &Vec<ResourceList>) -> (r: Vec<
    ResourceDescriptor,
>)
    ensures
        r.deep_view() == catalog_of(grouped.deep_view(), core.deep_view()),
{
    let mut r: Vec<ResourceDescriptor> = Vec::new();
    assert(r.deep_view() =~= Seq::<ResourceModel>::empty());
    push_all_entries(&mut r, grouped);
    push_all_entries(&mut r, core);
    assert(r.deep_view() =~= entries(grouped.deep_view()) + entries(core.deep_view()));
    r
}

} // verus!
