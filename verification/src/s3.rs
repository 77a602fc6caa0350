//! The partition table of the storage service.

use vstd::prelude::*;
use crate::endpoint::{
    CredentialScope, EndpointTemplate, Protocol, SignatureVersion, TemplateView,
};
use crate::partition::{lemma_listing, Partition, PartitionView};
use crate::resolver::{views, PartitionResolver, TableView};
use crate::s3_patterns::{
    china_pattern, iso_b_pattern, iso_pattern, lemma_china_pattern, lemma_iso_b_pattern,
    lemma_iso_pattern, lemma_standard_pattern, lemma_us_gov_pattern, standard_pattern,
    us_gov_pattern,
};
use crate::text::marks;

verus! {

/// An endpoint at `uri` that is reached over HTTPS, takes signatures of
/// version 4, and signs for the region that was asked for.
pub open spec fn https_v4(uri: Seq<char>) -> TemplateView {
    TemplateView {
        uri_template: uri,
        protocol: Protocol::Https,
        signature_versions: SignatureVersion::V4,
        credential_scope: None,
    }
}

/// An endpoint at `uri` that is reached over HTTPS, takes signatures of
/// version 4, and signs for `region` whatever region was asked for.
pub open spec fn https_v4_signing_as(uri: Seq<char>, region: Seq<char>) -> TemplateView {
    TemplateView {
        uri_template: uri,
        protocol: Protocol::Https,
        signature_versions: SignatureVersion::V4,
        credential_scope: Some(region),
    }
}

/// The standard partition: the public regions.
pub open spec fn standard_partition() -> PartitionView {
    PartitionView::starting(
        "aws"@,
        standard_pattern(),
        https_v4("s3.{region}.amazonaws.com"@),
    ).listing(
        "ap-northeast-1"@,
        https_v4("s3.ap-northeast-1.amazonaws.com"@),
    ).listing(
        "ap-southeast-1"@,
        https_v4("s3.ap-southeast-1.amazonaws.com"@),
    ).listing(
        "ap-southeast-2"@,
        https_v4("s3.ap-southeast-2.amazonaws.com"@),
    ).listing(
        "aws-global"@,
        https_v4_signing_as(
            "s3.amazonaws.com"@,
            "us-east-1"@,
        ),
    ).listing(
        "eu-west-1"@,
        https_v4("s3.eu-west-1.amazonaws.com"@),
    ).listing(
        "s3-external-1"@,
        https_v4_signing_as(
            "s3-external-1.amazonaws.com"@,
            "us-east-1"@,
        ),
    ).listing(
        "sa-east-1"@,
        https_v4("s3.sa-east-1.amazonaws.com"@),
    ).listing(
        "us-east-1"@,
        https_v4("s3.us-east-1.amazonaws.com"@),
    ).listing(
        "us-west-1"@,
        https_v4("s3.us-west-1.amazonaws.com"@),
    ).listing(
        "us-west-2"@,
        https_v4("s3.us-west-2.amazonaws.com"@),
    )
}

/// The partition of the regions in China.
pub open spec fn china_partition() -> PartitionView {
    PartitionView::starting(
        "aws-cn"@,
        china_pattern(),
        https_v4("s3.{region}.amazonaws.com.cn"@),
    )
}

/// The first isolated partition.
pub open spec fn iso_partition() -> PartitionView {
    PartitionView::starting(
        "aws-iso"@,
        iso_pattern(),
        https_v4("s3.{region}.c2s.ic.gov"@),
    ).listing(
        "us-iso-east-1"@,
        https_v4("s3.{region}.c2s.ic.gov"@),
    )
}

/// The second isolated partition.
pub open spec fn iso_b_partition() -> PartitionView {
    PartitionView::starting(
        "aws-iso-b"@,
        iso_b_pattern(),
        https_v4("s3.{region}.sc2s.sgov.gov"@),
    )
}

/// The partition of the government regions.
pub open spec fn us_gov_partition() -> PartitionView {
    PartitionView::starting(
        "aws-us-gov"@,
        us_gov_pattern(),
        https_v4("s3.{region}.amazonaws.com"@),
    ).listing(
        "fips-us-gov-west-1"@,
        https_v4_signing_as(
            "s3-fips.us-gov-west-1.amazonaws.com"@,
            "us-gov-west-1"@,
        ),
    ).listing(
        "us-gov-east-1"@,
        https_v4("s3.us-gov-east-1.amazonaws.com"@),
    ).listing(
        "us-gov-west-1"@,
        https_v4("s3.us-gov-west-1.amazonaws.com"@),
    )
}

/// The table of the storage service: the standard partition first, so that
/// a region that no pattern accepts is resolved in it.
pub open spec fn s3_table() -> TableView {
    TableView::of(
        standard_partition(),
        seq![china_partition(), iso_partition(), iso_b_partition(), us_gov_partition()],
    )
}

/// The marks of the names that the standard partition lists: no two names
/// have the same marks.
pub proof fn lemma_standard_names()
    ensures
        marks("ap-northeast-1"@) == (14nat, 'a', 'n', 'h', '1'),
        marks("ap-southeast-1"@) == (14nat, 'a', 's', 'h', '1'),
        marks("ap-southeast-2"@) == (14nat, 'a', 's', 'h', '2'),
        marks("aws-global"@) == (10nat, 'a', '-', 'b', 'l'),
        marks("eu-west-1"@) == (9nat, 'e', 'w', '-', '1'),
        marks("s3-external-1"@) == (13nat, 's', 'e', 'r', '1'),
        marks("sa-east-1"@) == (9nat, 's', 'e', '-', '1'),
        marks("us-east-1"@) == (9nat, 'u', 'e', '-', '1'),
        marks("us-west-1"@) == (9nat, 'u', 'w', '-', '1'),
        marks("us-west-2"@) == (9nat, 'u', 'w', '-', '2'),
{
    reveal_strlit("ap-northeast-1");
    reveal_strlit("ap-southeast-1");
    reveal_strlit("ap-southeast-2");
    reveal_strlit("aws-global");
    reveal_strlit("eu-west-1");
    reveal_strlit("s3-external-1");
    reveal_strlit("sa-east-1");
    reveal_strlit("us-east-1");
    reveal_strlit("us-west-1");
    reveal_strlit("us-west-2");
}

/// The partition `aws` is well formed: its pattern compiles, and no name is
/// listed twice in it.
pub proof fn lemma_standard_partition()
    ensures
        standard_partition().well_formed(),
{
    lemma_standard_pattern();
    lemma_standard_names();
    let listed0 = PartitionView::starting(
        "aws"@,
        standard_pattern(),
        https_v4("s3.{region}.amazonaws.com"@),
    );
    assert(listed0.keys() =~= Seq::empty());
    let endpoint0 = https_v4("s3.ap-northeast-1.amazonaws.com"@);
    lemma_listing(listed0, "ap-northeast-1"@, endpoint0);
    let listed1 = listed0.listing("ap-northeast-1"@, endpoint0);
    let endpoint1 = https_v4("s3.ap-southeast-1.amazonaws.com"@);
    lemma_listing(listed1, "ap-southeast-1"@, endpoint1);
    let listed2 = listed1.listing("ap-southeast-1"@, endpoint1);
    let endpoint2 = https_v4("s3.ap-southeast-2.amazonaws.com"@);
    lemma_listing(listed2, "ap-southeast-2"@, endpoint2);
    let listed3 = listed2.listing("ap-southeast-2"@, endpoint2);
    let endpoint3 = https_v4_signing_as(
        "s3.amazonaws.com"@,
        "us-east-1"@,
    );
    lemma_listing(listed3, "aws-global"@, endpoint3);
    let listed4 = listed3.listing("aws-global"@, endpoint3);
    let endpoint4 = https_v4("s3.eu-west-1.amazonaws.com"@);
    lemma_listing(listed4, "eu-west-1"@, endpoint4);
    let listed5 = listed4.listing("eu-west-1"@, endpoint4);
    let endpoint5 = https_v4_signing_as(
        "s3-external-1.amazonaws.com"@,
        "us-east-1"@,
    );
    lemma_listing(listed5, "s3-external-1"@, endpoint5);
    let listed6 = listed5.listing("s3-external-1"@, endpoint5);
    let endpoint6 = https_v4("s3.sa-east-1.amazonaws.com"@);
    lemma_listing(listed6, "sa-east-1"@, endpoint6);
    let listed7 = listed6.listing("sa-east-1"@, endpoint6);
    let endpoint7 = https_v4("s3.us-east-1.amazonaws.com"@);
    lemma_listing(listed7, "us-east-1"@, endpoint7);
    let listed8 = listed7.listing("us-east-1"@, endpoint7);
    let endpoint8 = https_v4("s3.us-west-1.amazonaws.com"@);
    lemma_listing(listed8, "us-west-1"@, endpoint8);
    let listed9 = listed8.listing("us-west-1"@, endpoint8);
    let endpoint9 = https_v4("s3.us-west-2.amazonaws.com"@);
    lemma_listing(listed9, "us-west-2"@, endpoint9);
    let listed10 = listed9.listing("us-west-2"@, endpoint9);
    assert(listed10 == standard_partition());
}

/// The partition `aws-cn` is well formed: its pattern compiles, and no name is
/// listed twice in it.
pub proof fn lemma_china_partition()
    ensures
        china_partition().well_formed(),
{
    lemma_china_pattern();
    let listed0 = PartitionView::starting(
        "aws-cn"@,
        china_pattern(),
        https_v4("s3.{region}.amazonaws.com.cn"@),
    );
    assert(listed0.keys() =~= Seq::empty());
    assert(listed0 == china_partition());
}

/// The partition `aws-iso` is well formed: its pattern compiles, and no name is
/// listed twice in it.
pub proof fn lemma_iso_partition()
    ensures
        iso_partition().well_formed(),
{
    lemma_iso_pattern();
    reveal_strlit("us-iso-east-1");
    assert(marks("us-iso-east-1"@) == (13nat, 'u', 'i', 'e', '1'));
    let listed0 = PartitionView::starting(
        "aws-iso"@,
        iso_pattern(),
        https_v4("s3.{region}.c2s.ic.gov"@),
    );
    assert(listed0.keys() =~= Seq::empty());
    let endpoint0 = https_v4("s3.{region}.c2s.ic.gov"@);
    lemma_listing(listed0, "us-iso-east-1"@, endpoint0);
    let listed1 = listed0.listing("us-iso-east-1"@, endpoint0);
    assert(listed1 == iso_partition());
}

/// The partition `aws-iso-b` is well formed: its pattern compiles, and no name is
/// listed twice in it.
pub proof fn lemma_iso_b_partition()
    ensures
        iso_b_partition().well_formed(),
{
    lemma_iso_b_pattern();
    let listed0 = PartitionView::starting(
        "aws-iso-b"@,
        iso_b_pattern(),
        https_v4("s3.{region}.sc2s.sgov.gov"@),
    );
    assert(listed0.keys() =~= Seq::empty());
    assert(listed0 == iso_b_partition());
}

/// The partition `aws-us-gov` is well formed: its pattern compiles, and no name is
/// listed twice in it.
pub proof fn lemma_us_gov_partition()
    ensures
        us_gov_partition().well_formed(),
{
    lemma_us_gov_pattern();
    reveal_strlit("fips-us-gov-west-1");
    assert(marks("fips-us-gov-west-1"@) == (18nat, 'f', 's', '-', '1'));
    reveal_strlit("us-gov-east-1");
    assert(marks("us-gov-east-1"@) == (13nat, 'u', 'g', 'e', '1'));
    reveal_strlit("us-gov-west-1");
    assert(marks("us-gov-west-1"@) == (13nat, 'u', 'g', 'w', '1'));
    let listed0 = PartitionView::starting(
        "aws-us-gov"@,
        us_gov_pattern(),
        https_v4("s3.{region}.amazonaws.com"@),
    );
    assert(listed0.keys() =~= Seq::empty());
    let endpoint0 = https_v4_signing_as(
        "s3-fips.us-gov-west-1.amazonaws.com"@,
        "us-gov-west-1"@,
    );
    lemma_listing(listed0, "fips-us-gov-west-1"@, endpoint0);
    let listed1 = listed0.listing("fips-us-gov-west-1"@, endpoint0);
    let endpoint1 = https_v4("s3.us-gov-east-1.amazonaws.com"@);
    lemma_listing(listed1, "us-gov-east-1"@, endpoint1);
    let listed2 = listed1.listing("us-gov-east-1"@, endpoint1);
    let endpoint2 = https_v4("s3.us-gov-west-1.amazonaws.com"@);
    lemma_listing(listed2, "us-gov-west-1"@, endpoint2);
    let listed3 = listed2.listing("us-gov-west-1"@, endpoint2);
    assert(listed3 == us_gov_partition());
}

/// The table of the storage service is well formed: each partition is, and
/// no two have the same id.
pub proof fn lemma_s3_table()
    ensures
        s3_table().well_formed(),
{
    lemma_standard_partition();
    lemma_china_partition();
    lemma_iso_partition();
    lemma_iso_b_partition();
    lemma_us_gov_partition();
    reveal_strlit("aws");
    assert(marks("aws"@) == (3nat, 'a', ' ', ' ', 's'));
    reveal_strlit("aws-cn");
    assert(marks("aws-cn"@) == (6nat, 'a', '-', ' ', 'n'));
    reveal_strlit("aws-iso");
    assert(marks("aws-iso"@) == (7nat, 'a', '-', ' ', 'o'));
    reveal_strlit("aws-iso-b");
    assert(marks("aws-iso-b"@) == (9nat, 'a', '-', '-', 'b'));
    reveal_strlit("aws-us-gov");
    assert(marks("aws-us-gov"@) == (10nat, 'a', '-', 'g', 'v'));
    let table = s3_table();
    assert(table.partitions.len() == 5);
    assert(table.ids() =~= seq!["aws"@, "aws-cn"@, "aws-iso"@, "aws-iso-b"@, "aws-us-gov"@]);
}

fn template(uri: &str) -> (made: EndpointTemplate)
    ensures
        made@ == https_v4(uri@),
{
    EndpointTemplate {
        uri_template: uri.to_owned(),
        protocol: Protocol::Https,
        signature_versions: SignatureVersion::V4,
        credential_scope: CredentialScope::builder().build(),
    }
}

fn template_signing_as(uri: &str, region: &str) -> (made: EndpointTemplate)
    ensures
        made@ == https_v4_signing_as(uri@, region@),
{
    EndpointTemplate {
        uri_template: uri.to_owned(),
        protocol: Protocol::Https,
        signature_versions: SignatureVersion::V4,
        credential_scope: CredentialScope::builder().region(region).build(),
    }
}

/// The resolver of the storage service's endpoints: the table is built and
/// validated, which cannot fail.
pub fn endpoint_resolver() -> (resolver: PartitionResolver)
    ensures
        resolver@ == s3_table(),
{
    proof {
        lemma_standard_partition();
    }
    let standard = Partition::builder(
        "aws",
        "^(us|eu|ap|sa|ca|me|af)\\-\\w+\\-\\d+$",
        template("s3.{region}.amazonaws.com"),
    ).endpoint(
        "ap-northeast-1",
        template("s3.ap-northeast-1.amazonaws.com"),
    ).endpoint(
        "ap-southeast-1",
        template("s3.ap-southeast-1.amazonaws.com"),
    ).endpoint(
        "ap-southeast-2",
        template("s3.ap-southeast-2.amazonaws.com"),
    ).endpoint(
        "aws-global",
        template_signing_as("s3.amazonaws.com", "us-east-1"),
    ).endpoint(
        "eu-west-1",
        template("s3.eu-west-1.amazonaws.com"),
    ).endpoint(
        "s3-external-1",
        template_signing_as("s3-external-1.amazonaws.com", "us-east-1"),
    ).endpoint(
        "sa-east-1",
        template("s3.sa-east-1.amazonaws.com"),
    ).endpoint(
        "us-east-1",
        template("s3.us-east-1.amazonaws.com"),
    ).endpoint(
        "us-west-1",
        template("s3.us-west-1.amazonaws.com"),
    ).endpoint(
        "us-west-2",
        template("s3.us-west-2.amazonaws.com"),
    ).build().expect("invalid partition");
    proof {
        lemma_china_partition();
    }
    let china = Partition::builder(
        "aws-cn",
        "^cn\\-\\w+\\-\\d+$",
        template("s3.{region}.amazonaws.com.cn"),
    ).build().expect("invalid partition");
    proof {
        lemma_iso_partition();
    }
    let iso = Partition::builder(
        "aws-iso",
        "^us\\-iso\\-\\w+\\-\\d+$",
        template("s3.{region}.c2s.ic.gov"),
    ).endpoint(
        "us-iso-east-1",
        template("s3.{region}.c2s.ic.gov"),
    ).build().expect("invalid partition");
    proof {
        lemma_iso_b_partition();
    }
    let iso_b = Partition::builder(
        "aws-iso-b",
        "^us\\-isob\\-\\w+\\-\\d+$",
        template("s3.{region}.sc2s.sgov.gov"),
    ).build().expect("invalid partition");
    proof {
        lemma_us_gov_partition();
    }
    let us_gov = Partition::builder(
        "aws-us-gov",
        "^us\\-gov\\-\\w+\\-\\d+$",
        template("s3.{region}.amazonaws.com"),
    ).endpoint(
        "fips-us-gov-west-1",
        template_signing_as("s3-fips.us-gov-west-1.amazonaws.com", "us-gov-west-1"),
    ).endpoint(
        "us-gov-east-1",
        template("s3.us-gov-east-1.amazonaws.com"),
    ).endpoint(
        "us-gov-west-1",
        template("s3.us-gov-west-1.amazonaws.com"),
    ).build().expect("invalid partition");
    let rest = vec![china, iso, iso_b, us_gov];
    proof {
        lemma_s3_table();
        assert(rest@ =~= seq![china, iso, iso_b, us_gov]);
        assert(views(rest@) =~= seq![
            china_partition(),
            iso_partition(),
            iso_b_partition(),
            us_gov_partition(),
        ]);
    }
    PartitionResolver::new(standard, rest).expect("invalid table")
}

} // verus!
