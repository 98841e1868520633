//! The Protobuf files that a compiler has read, by their names.
use crate::descriptors::{
    find_message, first_message, text_or_empty, DescriptorProto, FileDescriptorProto,
};
use crate::error::{Error, ErrorView};
use crate::text::{
    text_less, text_less_is_irreflexive, text_less_is_total, text_less_is_transitive,
};
use crate::text_map::{lookup, lookup_in_ordered, lookup_is_first, TextMap};
use vstd::prelude::*;

verus! {

/// The model of files by their names.
pub open spec fn file_map(files: TextMap<&FileDescriptorProto>) -> Map<
    Seq<char>,
    FileDescriptorProto,
> {
    files@.map_values(|file: &FileDescriptorProto| *file)
}

/// Files by their names. A file without a name goes by the empty one; of files with the same name
/// the last one is kept.
pub open spec fn files_by_name(files: Seq<FileDescriptorProto>) -> Map<
    Seq<char>,
    FileDescriptorProto,
>
    decreases files.len(),
{
    if files.len() == 0 {
        Map::empty()
    } else {
        files_by_name(files.drop_last()).insert(text_or_empty(files.last().name), files.last())
    }
}

/// Files by their names. A file without a name goes by the empty one; of files with the same name
/// the last one is kept.
pub fn index_files(files: &Vec<FileDescriptorProto>) -> (index: TextMap<&FileDescriptorProto>)
    ensures
        index.ordered(),
        file_map(index) == files_by_name(files@),
{
    let mut index: TextMap<&FileDescriptorProto> = TextMap::new();
    let mut i: usize = 0;
    assert(file_map(index) =~= files_by_name(files@.take(0)));
    while i < files.len()
        invariant
            i <= files@.len(),
            index.ordered(),
            file_map(index) == files_by_name(files@.take(i as int)),
        decreases files.len() - i,
    {
        let ghost before = file_map(index);
        let file = &files[i];
        let name = match &file.name {
            Some(name) => name.clone(),
            None => String::new(),
        };
        assert(name@ =~= text_or_empty(file.name));
        index.insert(name, file);
        proof {
            assert(files@.take(i + 1).drop_last() =~= files@.take(i as int));
            assert(files@.take(i + 1).last() == files@[i as int]);
            assert(file_map(index) =~= before.insert(text_or_empty(file.name), *file));
        }
        i += 1;
    }
    assert(files@.take(i as int) =~= files@);
    index
}

/// Whether there is a file of this name, and it declares a message of that name.
pub open spec fn declares(
    files: Map<Seq<char>, FileDescriptorProto>,
    file: Seq<char>,
    message: Seq<char>,
) -> bool {
    files.contains_key(file) && first_message(files[file].message_type@, message) is Some
}

/// Whether a file is the first, by its name, of those that declare a message of the given name.
pub open spec fn declares_first(
    files: Map<Seq<char>, FileDescriptorProto>,
    file: Seq<char>,
    message: Seq<char>,
) -> bool {
    &&& declares(files, file, message)
    &&& forall|other: Seq<char>| #[trigger]
        declares(files, other, message) ==> !text_less(other, file)
}

/// The message with the given name in the first file, by its name, that declares one.
pub open spec fn declared_message(
    files: Map<Seq<char>, FileDescriptorProto>,
    message: Seq<char>,
) -> Result<DescriptorProto, ErrorView> {
    if exists|file: Seq<char>| declares_first(files, file, message) {
        let file = choose|file: Seq<char>| declares_first(files, file, message);
        Ok(first_message(files[file].message_type@, message)->0)
    } else {
        Err(ErrorView::UnknownMessage { message })
    }
}

/// At most one file is the first that declares a message.
pub proof fn first_file_is_unique(
    files: Map<Seq<char>, FileDescriptorProto>,
    a: Seq<char>,
    b: Seq<char>,
    message: Seq<char>,
)
    requires
        declares_first(files, a, message),
        declares_first(files, b, message),
    ensures
        a == b,
{
    assert(declares(files, a, message) && declares(files, b, message));
    text_less_is_total(a, b);
}

/// The message with the given name in the first file, by its name, that declares one.
pub fn find_message_descriptor<'a>(
    message_name: &str,
    all_descriptors: &TextMap<&'a FileDescriptorProto>,
) -> (found: Result<&'a DescriptorProto, Error>)
    requires
        all_descriptors.ordered(),
    ensures
        match found {
            Ok(message) => declared_message(file_map(*all_descriptors), message_name@) == Ok::<
                DescriptorProto,
                ErrorView,
            >(*message),
            Err(error) => declared_message(file_map(*all_descriptors), message_name@) == Err::<
                DescriptorProto,
                ErrorView,
            >(error@),
        },
        found is Ok <==> exists|file: Seq<char>|
            declares(file_map(*all_descriptors), file, message_name@),
{
    let ghost files = file_map(*all_descriptors);
    let ghost entries = all_descriptors.entries@;
    let mut i: usize = 0;
    while i < all_descriptors.entries.len()
        invariant
            i <= entries.len(),
            all_descriptors.ordered(),
            files == file_map(*all_descriptors),
            entries == all_descriptors.entries@,
            forall|j: int|
                0 <= j < i ==> first_message(
                    (#[trigger] entries[j]).1.message_type@,
                    message_name@,
                ) is None,
        decreases all_descriptors.entries.len() - i,
    {
        match find_message(&all_descriptors.entries[i].1.message_type, message_name) {
            Some(message) => {
                proof {
                    let here = entries[i as int].0@;
                    lookup_in_ordered(entries, i as int);
                    assert(files[here] == *entries[i as int].1);
                    assert(declares(files, here, message_name@));
                    assert forall|other: Seq<char>| #[trigger]
                        declares(files, other, message_name@) implies !text_less(other, here) by {
                        let at = lookup_is_first(entries, other);
                        assert(lookup(entries, other) is Some);
                        assert(files[other] == *entries[at].1);
                        text_less_is_irreflexive(here);
                        if at > i {
                            assert(text_less(here, other));
                            if text_less(other, here) {
                                text_less_is_transitive(here, other, here);
                            }
                        }
                    }
                    assert(declares_first(files, here, message_name@));
                    let chosen = choose|file: Seq<char>|
                        declares_first(files, file, message_name@);
                    first_file_is_unique(files, here, chosen, message_name@);
                }
                return Ok(message);
            },
            None => {},
        }
        i += 1;
    }
    proof {
        assert forall|file: Seq<char>| !declares(files, file, message_name@) by {
            let at = lookup_is_first(entries, file);
            if files.contains_key(file) {
                assert(lookup(entries, file) is Some);
                assert(files[file] == *entries[at].1);
            }
        }
    }
    Err(Error::UnknownMessage { message: message_name.to_owned() })
}

} // verus!
