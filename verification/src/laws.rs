//! What holds of resolution against any table.

use vstd::prelude::*;
use crate::endpoint::{ResolvedEndpoint, TemplateView};
use crate::partition::{PartitionView, Regionalized};
use crate::resolver::TableView;
use crate::text::{placeholder, placeholder_at, substituted};

verus! {

/// Every region is resolved in a partition of the table: whatever the
/// region is, the place that resolution picks is a place of the table.
pub proof fn lemma_resolution_is_total(table: TableView, region: Seq<char>)
    requires
        table.partitions.len() >= 1,
    ensures
        0 <= table.matching(region) < table.partitions.len(),
        table.resolve(region) == table.partitions[table.matching(region)].resolve(region),
{
    if exists|at: int| table.first_match(region, at) {
        let at = choose|at: int| table.first_match(region, at);
        assert(table.matches_at(region, at));
    }
}

/// Resolution depends on nothing but what the table holds and the region:
/// two endpoints that were resolved for the same region, against tables
/// that hold the same partitions in the same order, are the same in every
/// part.
pub proof fn lemma_resolution_is_deterministic(
    table: TableView,
    other: TableView,
    region: Seq<char>,
    first: ResolvedEndpoint,
    second: ResolvedEndpoint,
)
    requires
        table.partitions =~= other.partitions,
        first@ == table.resolve(region),
        second@ == other.resolve(region),
    ensures
        first.uri@ == second.uri@,
        first.protocol == second.protocol,
        first.signature_versions == second.signature_versions,
        first.signing_region@ == second.signing_region@,
{
}

/// A partition whose pattern accepts the region, and before which no
/// partition has such a pattern, is the one that the region is resolved in.
pub proof fn lemma_first_match_is_picked(table: TableView, region: Seq<char>, at: int)
    requires
        table.first_match(region, at),
    ensures
        table.matching(region) == at,
{
    let picked = choose|picked: int| table.first_match(region, picked);
    if picked < at {
        assert(table.matches_at(region, picked));
    }
    if at < picked {
        assert(table.matches_at(region, at));
    }
}

/// A region that the pattern of the first partition accepts is resolved in
/// the first partition, whatever the patterns of the others accept.
pub proof fn lemma_first_partition_wins(table: TableView, region: Seq<char>)
    requires
        table.matches_at(region, 0),
    ensures
        table.matching(region) == 0,
{
    lemma_first_match_is_picked(table, region, 0);
}

/// A region that no pattern of the table accepts is resolved in the first
/// partition.
pub proof fn lemma_unmatched_falls_back(table: TableView, region: Seq<char>)
    requires
        forall|at: int| !table.matches_at(region, at),
    ensures
        table.matching(region) == 0,
{
    assert forall|at: int| !table.first_match(region, at) by {
        assert(!table.matches_at(region, at));
    }
}

/// Where the partition lists an endpoint under the region, that endpoint
/// is the template, with its address made out for the region: its address,
/// with the region in the place of each placeholder, is the address of the
/// resolved endpoint, and the default endpoint has no part in it.
pub proof fn lemma_listed_endpoint_wins(
    partition: PartitionView,
    region: Seq<char>,
    endpoint: TemplateView,
)
    requires
        partition.listed(region) == Some(endpoint),
    ensures
        partition.select(region) == endpoint.made_out(region),
        partition.resolve(region).uri == substituted(endpoint.uri_template, region),
        partition.resolve(region).protocol == endpoint.protocol,
        partition.resolve(region).signature_versions == endpoint.signature_versions,
        partition.resolve(region).signing_region == endpoint.signing_region(region),
{
}

/// An endpoint that is listed under the region with an address without an
/// opening brace is resolved to that very address.
pub proof fn lemma_listed_address_is_kept(
    partition: PartitionView,
    region: Seq<char>,
    endpoint: TemplateView,
)
    requires
        partition.listed(region) == Some(endpoint),
        !endpoint.uri_template.contains('{'),
    ensures
        partition.select(region) == endpoint,
        partition.resolve(region) == endpoint.resolved(region),
        partition.resolve(region).uri == endpoint.uri_template,
{
    lemma_substituted_plain(endpoint.uri_template, region);
}

/// The same of a table: where the partition that the region is resolved in
/// lists an endpoint under the region, the resolved endpoint has that
/// endpoint's address, made out for the region.
pub proof fn lemma_listed_endpoint_wins_in_table(
    table: TableView,
    region: Seq<char>,
    endpoint: TemplateView,
)
    requires
        table.partitions.len() >= 1,
        table.partitions[table.matching(region)].listed(region) == Some(endpoint),
    ensures
        table.resolve(region) == endpoint.made_out(region).resolved(region),
        table.resolve(region).uri == substituted(endpoint.uri_template, region),
        !endpoint.uri_template.contains('{') ==> table.resolve(region).uri
            == endpoint.uri_template,
{
    lemma_resolution_is_total(table, region);
    if !endpoint.uri_template.contains('{') {
        lemma_substituted_plain(endpoint.uri_template, region);
    }
}

/// Where none is listed under the region, the address is the default
/// address with a region in the place of each placeholder, and what else
/// the default endpoint says is kept. The region that is written in is the
/// one that was asked for, but for a partition with one address and a home
/// region, where it is the home region.
pub proof fn lemma_default_is_made_out(partition: PartitionView, region: Seq<char>)
    requires
        partition.listed(region) is None,
    ensures
        partition.select(region) == partition.default_endpoint.made_out(
            partition.address_region(region),
        ),
        partition.resolve(region).uri == substituted(
            partition.default_endpoint.uri_template,
            partition.address_region(region),
        ),
        partition.regionalized == Regionalized::Regionalized ==> partition.address_region(region)
            == region,
        partition.home_region is None ==> partition.address_region(region) == region,
        partition.regionalized == Regionalized::NotRegionalized && partition.home_region is Some
            ==> partition.address_region(region) == partition.home_region->0,
{
}

/// The region to sign for is the one that the template names, and the
/// region that was asked for where it names none.
pub proof fn lemma_signing_region(template: TemplateView, requested: Seq<char>)
    ensures
        template.credential_scope matches Some(region) ==> template.resolved(
            requested,
        ).signing_region == region,
        template.credential_scope is None ==> template.resolved(requested).signing_region
            == requested,
{
}

/// A text without an opening brace holds no placeholder, and substitution
/// leaves it as it is.
pub proof fn lemma_substituted_plain(text: Seq<char>, region: Seq<char>)
    requires
        !text.contains('{'),
    ensures
        substituted(text, region) == text,
    decreases text.len(),
{
    if text.len() > 0 {
        assert(text[0] != '{');
        if placeholder_at(text, 0) {
            assert(text.subrange(0, 8)[0] == text[0]);
        }
        let rest = text.skip(1);
        assert forall|i: int| 0 <= i < rest.len() implies rest[i] != '{' by {
            assert(rest[i] == text[i + 1]);
        }
        lemma_substituted_plain(rest, region);
        assert(text.take(1) + rest =~= text);
    }
}

/// Where a text without an opening brace stands before a placeholder, the
/// text is kept and the region stands in the place of the placeholder.
pub proof fn lemma_substituted_around(before: Seq<char>, after: Seq<char>, region: Seq<char>)
    requires
        !before.contains('{'),
    ensures
        substituted(before + placeholder() + after, region) == before + region + substituted(
            after,
            region,
        ),
    decreases before.len(),
{
    let whole = before + placeholder() + after;
    if before.len() == 0 {
        assert(whole.subrange(0, 8) =~= placeholder());
        assert(whole.skip(8) =~= after);
        assert(before + region + substituted(after, region) =~= region + substituted(
            after,
            region,
        ));
    } else {
        assert(before[0] != '{');
        assert(whole[0] == before[0]);
        if placeholder_at(whole, 0) {
            assert(whole.subrange(0, 8)[0] == whole[0]);
        }
        let rest = before.skip(1);
        assert forall|i: int| 0 <= i < rest.len() implies rest[i] != '{' by {
            assert(rest[i] == before[i + 1]);
        }
        lemma_substituted_around(rest, after, region);
        assert(whole.skip(1) =~= rest + placeholder() + after);
        assert(whole.take(1) + (rest + region + substituted(after, region)) =~= before + region
            + substituted(after, region));
    }
}

/// Where texts without an opening brace stand before and after the one
/// placeholder of a template, the region stands between them.
pub proof fn lemma_substituted_between(before: Seq<char>, after: Seq<char>, region: Seq<char>)
    requires
        !before.contains('{'),
        !after.contains('{'),
    ensures
        substituted(before + placeholder() + after, region) == before + region + after,
{
    lemma_substituted_around(before, after, region);
    lemma_substituted_plain(after, region);
}

} // verus!
