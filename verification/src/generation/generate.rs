use vstd::prelude::*;

verus! {

/// The synthetic data sets that can be generated. The integer parameters of a
/// generator are carried here; its fractional parameters belong to the kind.
#[derive(PartialEq, Eq, Structural, Debug, Clone, Copy)]
pub enum DatasetKind {
    /// Random line strings with bends, of at most `max_vertices_per_feature` vertices.
    Curves { max_vertices_per_feature: usize },
    /// A deterministic mix of all geometry types.
    ComplexCollection,
    /// Seeded line strings, some with endpoints close to earlier ones.
    ConcatenateSeeded { seed: u64 },
}

/// One data set to generate and the file to write it to.
pub struct DatasetJob {
    pub kind: DatasetKind,
    pub num_features: usize,
    pub file_path: String,
}

/// The feature counts each data set is generated for, in order.
pub open spec fn dataset_sizes() -> Seq<usize> {
    seq![100usize, 1_000usize, 10_000usize, 100_000usize]
}

pub open spec fn digit_char(d: nat) -> char {
    if d == 0 {
        '0'
    } else if d == 1 {
        '1'
    } else if d == 2 {
        '2'
    } else if d == 3 {
        '3'
    } else if d == 4 {
        '4'
    } else if d == 5 {
        '5'
    } else if d == 6 {
        '6'
    } else if d == 7 {
        '7'
    } else if d == 8 {
        '8'
    } else {
        '9'
    }
}

/// The decimal text of `n`, without leading zeros.
pub open spec fn decimal(n: nat) -> Seq<char>
    decreases n,
{
    if n < 10 {
        seq![digit_char(n)]
    } else {
        decimal(n / 10) + seq![digit_char(n % 10)]
    }
}

fn digit_text(d: usize) -> (r: &'static str)
    requires
        d < 10,
    ensures
        r@ == seq![digit_char(d as nat)],
{
    proof {
        reveal_strlit("0");
        reveal_strlit("1");
        reveal_strlit("2");
        reveal_strlit("3");
        reveal_strlit("4");
        reveal_strlit("5");
        reveal_strlit("6");
        reveal_strlit("7");
        reveal_strlit("8");
        reveal_strlit("9");
    }
    let r = if d == 0 {
        "0"
    } else if d == 1 {
        "1"
    } else if d == 2 {
        "2"
    } else if d == 3 {
        "3"
    } else if d == 4 {
        "4"
    } else if d == 5 {
        "5"
    } else if d == 6 {
        "6"
    } else if d == 7 {
        "7"
    } else if d == 8 {
        "8"
    } else {
        "9"
    };
    assert(r@ =~= seq![digit_char(d as nat)]);
    r
}

/// Writes `n` in decimal, as `format!("{}", n)` does.
pub fn decimal_text(n: usize) -> (r: String)
    ensures
        r@ == decimal(n as nat),
    decreases n,
{
    if n < 10 {
        digit_text(n).to_owned()
    } else {
        let mut s = decimal_text(n / 10);
        s.append(digit_text(n % 10));
        s
    }
}

/// The file a data set of `num_features` features is written to:
/// `{prefix}{num_features / 1000}k_features.geojson`.
pub open spec fn dataset_file(prefix: Seq<char>, num_features: usize) -> Seq<char> {
    prefix + decimal((num_features / 1000) as nat) + "k_features.geojson"@
}

pub open spec fn kind_prefix(kind: DatasetKind) -> Seq<char> {
    match kind {
        DatasetKind::Curves { .. } => "synthetic_data_curve_test_"@,
        DatasetKind::ComplexCollection => "synthetic_data_complex_featurecollection_"@,
        DatasetKind::ConcatenateSeeded { .. } => "deterministic_data_concat_seeded_featurecollection_"@,
    }
}

/// The three kinds of data set, in the order they are generated.
pub open spec fn dataset_kinds() -> Seq<DatasetKind> {
    seq![
        DatasetKind::Curves { max_vertices_per_feature: 50 },
        DatasetKind::ComplexCollection,
        DatasetKind::ConcatenateSeeded { seed: 12345 },
    ]
}

fn dataset_job(kind: DatasetKind, num_features: usize) -> (job: DatasetJob)
    ensures
        job.kind == kind,
        job.num_features == num_features,
        job.file_path@ == dataset_file(kind_prefix(kind), num_features),
{
    let mut path = match kind {
        DatasetKind::Curves { .. } => "synthetic_data_curve_test_".to_owned(),
        DatasetKind::ComplexCollection => "synthetic_data_complex_featurecollection_".to_owned(),
        DatasetKind::ConcatenateSeeded { .. } => "deterministic_data_concat_seeded_featurecollection_".to_owned(),
    };
    let count = decimal_text(num_features / 1000);
    path.append(count.as_str());
    path.append("k_features.geojson");
    DatasetJob { kind, num_features, file_path: path }
}

/// The synthetic data to generate, in order: for each kind of data set in turn,
/// one job for each of the sizes 100, 1 000, 10 000 and 100 000, each with the
/// file it is written to.
pub fn generate_synthetic_data() -> (jobs: Vec<DatasetJob>)
    ensures
        jobs.len() == 12,
        forall|i: int|
            0 <= i < 12 ==> {
                let job = #[trigger] jobs@[i];
                &&& job.kind == dataset_kinds()[i / 4]
                &&& job.num_features == dataset_sizes()[i % 4]
                &&& job.file_path@ == dataset_file(kind_prefix(job.kind), job.num_features)
            },
{
    let kinds = [
        DatasetKind::Curves { max_vertices_per_feature: 50 },
        DatasetKind::ComplexCollection,
        DatasetKind::ConcatenateSeeded { seed: 12345 },
    ];
    let sizes: [usize; 4] = [100, 1_000, 10_000, 100_000];
    let mut jobs: Vec<DatasetJob> = Vec::new();
    let mut k: usize = 0;
    while k < 3
        invariant
            0 <= k <= 3,
            jobs.len() == 4 * k,
            kinds@ == dataset_kinds(),
            sizes@ == dataset_sizes(),
            forall|i: int|
                0 <= i < 4 * k ==> {
                    let job = #[trigger] jobs@[i];
                    &&& job.kind == dataset_kinds()[i / 4]
                    &&& job.num_features == dataset_sizes()[i % 4]
                    &&& job.file_path@ == dataset_file(kind_prefix(job.kind), job.num_features)
                },
        decreases 3 - k,
    {
        let mut s: usize = 0;
        while s < 4
            invariant
                0 <= k < 3,
                0 <= s <= 4,
                jobs.len() == 4 * k + s,
                kinds@ == dataset_kinds(),
                sizes@ == dataset_sizes(),
                forall|i: int|
                    0 <= i < 4 * k + s ==> {
                        let job = #[trigger] jobs@[i];
                        &&& job.kind == dataset_kinds()[i / 4]
                        &&& job.num_features == dataset_sizes()[i % 4]
                        &&& job.file_path@ == dataset_file(kind_prefix(job.kind), job.num_features)
                    },
            decreases 4 - s,
        {
            jobs.push(dataset_job(kinds[k], sizes[s]));
            assert((4 * k + s) / 4 == k && (4 * k + s) % 4 == s) by (nonlinear_arith)
                requires
                    s < 4,
            ;
            s = s + 1;
        }
        k = k + 1;
    }
    jobs
}

} // verus!
