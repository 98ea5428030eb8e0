//! What the options of the benchmark stand for, and what its batches tell of the volume.

use vstd::prelude::*;

use crate::catalog::FileKind;
use crate::decimal::parsed;
use crate::graph::benchmark::{
    arguments_of, checkpoint_of, dataset_mutation, default_arguments, naming, root_mutations,
    single, with_option, with_options, ArgumentsModel, BenchmarkErrorModel, GeneratedRecord,
};
use crate::graph::domain::{batch_fault, mutation_fault, BatchModel, MutationModel};
use crate::ids::VolumeId;

verus! {

proof fn lemma_options_differ()
    ensures
        "--records"@ != "--seed"@,
        "--records"@ != "--database"@,
        "--records"@ != "--output"@,
        "--seed"@ != "--database"@,
        "--seed"@ != "--output"@,
        "--database"@ != "--output"@,
{
    reveal_strlit("--records");
    reveal_strlit("--seed");
    reveal_strlit("--database");
    reveal_strlit("--output");
    assert("--records"@.len() == 9 && "--seed"@.len() == 6 && "--database"@.len() == 10
        && "--output"@.len() == 8);
}

proof fn lemma_options_in_turn(
    m: ArgumentsModel,
    all: Seq<Seq<char>>,
    option: Seq<char>,
    value: Seq<char>,
    from: int,
)
    requires
        0 <= from <= all.len(),
        (all.len() - from) % 2 == 0,
        with_options(m, all, from) is Ok,
    ensures
        with_options(m, all + seq![option, value], from) == with_option(
            with_options(m, all, from)->Ok_0,
            option,
            value,
        ),
    decreases all.len() - from,
{
    let whole = all + seq![option, value];
    if from < all.len() {
        assert(whole[from] == all[from]);
        assert(whole[from + 1] == all[from + 1]);
        let next = with_option(m, all[from], all[from + 1])->Ok_0;
        lemma_options_in_turn(next, all, option, value, from + 2);
    } else {
        assert(whole[from] == option);
        assert(whole[from + 1] == value);
        match with_option(m, option, value) {
            Ok(next) => {
                assert(with_options(next, whole, from + 2) == Ok::<
                    ArgumentsModel,
                    BenchmarkErrorModel,
                >(next));
            },
            Err(_) => {},
        }
    }
}

/// Each option that is added changes what it stands for and nothing else; a later value takes the
/// place of an earlier one, and there is always a record.
pub proof fn each_option_changes_its_own(
    all: Seq<Seq<char>>,
    m: ArgumentsModel,
    value: Seq<char>,
    n: u64,
)
    requires
        all.len() % 2 == 0,
        arguments_of(all) == Ok::<ArgumentsModel, BenchmarkErrorModel>(m),
        parsed(value, u64::MAX as nat) == Some(n as nat),
    ensures
        m.records > 0,
        n > 0 ==> arguments_of(all + seq!["--records"@, value]) == Ok::<
            ArgumentsModel,
            BenchmarkErrorModel,
        >(ArgumentsModel { records: n, ..m }),
        n == 0 ==> arguments_of(all + seq!["--records"@, value]) is Err,
        arguments_of(all + seq!["--seed"@, value]) == Ok::<ArgumentsModel, BenchmarkErrorModel>(
            ArgumentsModel { seed: n, ..m },
        ),
        arguments_of(all + seq!["--database"@, value]) == Ok::<ArgumentsModel, BenchmarkErrorModel>(
            ArgumentsModel { database: value, ..m },
        ),
        arguments_of(all + seq!["--output"@, value]) == Ok::<ArgumentsModel, BenchmarkErrorModel>(
            ArgumentsModel { output_directory: value, ..m },
        ),
        arguments_of(Seq::empty()) == Ok::<ArgumentsModel, BenchmarkErrorModel>(
            default_arguments(),
        ),
{
    lemma_options_differ();
    let start = default_arguments();
    lemma_options_in_turn(start, all, "--records"@, value, 0);
    lemma_options_in_turn(start, all, "--seed"@, value, 0);
    lemma_options_in_turn(start, all, "--database"@, value, 0);
    lemma_options_in_turn(start, all, "--output"@, value, 0);
}

/// The batches of the benchmark are accepted: what they name lies on the volume.
pub proof fn batches_stay_on_their_volume(
    volume_id: VolumeId,
    sequence: u64,
    first: u64,
    records: Seq<GeneratedRecord>,
    at: int,
    identity: u128,
    name: Seq<char>,
)
    ensures
        mutation_fault(dataset_mutation(volume_id, first, records, at), volume_id) is None,
        batch_fault(single(volume_id, sequence, naming(volume_id, identity, name))) is None,
        batch_fault(
            BatchModel {
                volume_id,
                checkpoint: checkpoint_of(volume_id, sequence),
                mutations: root_mutations(volume_id),
            },
        ) is None,
{
    reveal_with_fuel(crate::graph::domain::first_fault, 3);
}

/// Each record becomes a file of its own, with the size and the time of the record, and a link to
/// it from the root. No record is the root.
pub proof fn records_become_linked_files(
    volume_id: VolumeId,
    first: u64,
    records: Seq<GeneratedRecord>,
    k: int,
    other: int,
)
    requires
        0 <= k < records.len(),
        0 <= other < records.len(),
        first + records.len() <= u64::MAX,
    ensures
        dataset_mutation(volume_id, first, records, 2 * k) matches MutationModel::UpsertObject {
            object,
        } && dataset_mutation(volume_id, first, records, 2 * k + 1)
            matches MutationModel::UpsertLink { link, traversal_boundary } && {
            &&& object.metadata.kind == FileKind::File
            &&& object.metadata.size == records[k].size
            &&& object.metadata.modified_at_unix_ms == Some(records[k].modified_at_unix_ms)
            &&& link.object_key == object.object_key
            &&& root_mutations(volume_id)[0]->object.metadata.kind == FileKind::Directory
            &&& link.parent_key == Some(root_mutations(volume_id)[0]->object.object_key)
            &&& object.object_key != root_mutations(volume_id)[0]->object.object_key
            &&& records[k].name@.is_suffix_of(link.name)
            &&& !traversal_boundary
            &&& k != other ==> dataset_mutation(volume_id, first, records, 2 * other)->object.object_key
                != object.object_key
            &&& k != other ==> dataset_mutation(volume_id, first, records, 2 * other + 1)->link.file_link_id
                != link.file_link_id
        },
{
    assert((2 * k) / 2 == k && (2 * k) % 2 == 0);
    assert((2 * k + 1) / 2 == k && (2 * k + 1) % 2 == 1);
    assert((2 * other) / 2 == other && (2 * other) % 2 == 0);
    assert((2 * other + 1) / 2 == other && (2 * other + 1) % 2 == 1);
}

} // verus!
