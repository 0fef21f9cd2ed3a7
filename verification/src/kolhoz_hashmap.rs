//! A hash table as a plain vector of buckets, worked on by free functions.

use vstd::prelude::*;

verus! {

/// A key of the table.
#[derive(Clone, Copy, Debug, PartialEq, Eq, Structural)]
pub struct Key {
    pub id: u64,
}

/// A value of the table.
#[derive(Clone, Copy, Debug, PartialEq, Eq, Structural)]
pub struct Data {
    pub value: i64,
}

impl Key {
    /// The hash of the key.
    pub closed spec fn hash(&self) -> u64 {
        self.id
    }

    /// The hash of the key.
    pub fn get_hash(&self) -> (h: u64)
        ensures
            h == self.hash(),
    {
        self.id
    }
}

/// The bucket that a key belongs to in a table of `buckets` buckets.
pub open spec fn bucket_of(key: Key, buckets: int) -> int {
    key.hash() as int % buckets
}

/// The bucket that a key belongs to in a table of `buckets` buckets.
fn bucket_index(key: &Key, buckets: usize) -> (index: usize)
    requires
        buckets > 0,
    ensures
        index == bucket_of(*key, buckets as int),
        index < buckets,
{
    (key.get_hash() % (buckets as u64)) as usize
}

/// The table of `len` empty buckets.
pub open spec fn empty_table(len: nat) -> Seq<Seq<(Key, Data)>> {
    Seq::new(len, |i: int| Seq::<(Key, Data)>::empty())
}

/// A table as a sequence of sequences.
pub open spec fn table_view(table: Seq<Vec<(Key, Data)>>) -> Seq<Seq<(Key, Data)>> {
    Seq::new(table.len(), |i: int| table[i]@)
}

/// A table of `len` empty buckets.
pub fn new_hashmap(len: usize) -> (table: Vec<Vec<(Key, Data)>>)
    ensures
        table_view(table@) == empty_table(len as nat),
        table@.len() == len,
        forall|j: int| 0 <= j < len ==> (#[trigger] table@[j])@ == Seq::<(Key, Data)>::empty(),
{
    let mut table: Vec<Vec<(Key, Data)>> = Vec::new();
    for i in 0..len
        invariant
            table.len() == i,
            forall|j: int| 0 <= j < i ==> (#[trigger] table@[j])@ == Seq::<(Key, Data)>::empty(),
    {
        let v: Vec<(Key, Data)> = Vec::new();
        table.push(v);
    }
    assert(table_view(table@) =~= empty_table(len as nat));
    table
}

/// Puts the pair at the end of the key's bucket and hands out the stored
/// value. The table must have a bucket.
pub fn insert(table: &mut [Vec<(Key, Data)>], key: Key, value: Data) -> (stored: &mut Data)
    requires
        old(table).len() > 0,
    ensures
        *stored == value,
        final(table).len() == old(table).len(),
        forall|j: int|
            0 <= j < old(table).len() && j != bucket_of(key, old(table).len() as int) ==> (
            #[trigger] final(table)@[j])@ == old(table)@[j]@,
        final(table)@[bucket_of(key, old(table).len() as int)]@ == old(table)@[bucket_of(
            key,
            old(table).len() as int,
        )]@.push((key, *final(stored))),
{
    let n = table.len();
    let b = bucket_index(&key, n);
    table[b].push((key, value));
    let last_index = table[b].len() - 1;
    &mut table[b][last_index].1
}

/// The value of the first pair of the bucket that has the key.
pub open spec fn first_value(bucket: Seq<(Key, Data)>, key: Key) -> Option<Data>
    decreases bucket.len(),
{
    if bucket.len() == 0 {
        None
    } else if bucket[0].0 == key {
        Some(bucket[0].1)
    } else {
        first_value(bucket.drop_first(), key)
    }
}

/// The values of the pairs of the bucket that have the key, in order.
pub open spec fn values_of(bucket: Seq<(Key, Data)>, key: Key) -> Seq<Data>
    decreases bucket.len(),
{
    if bucket.len() == 0 {
        Seq::empty()
    } else if bucket.last().0 == key {
        values_of(bucket.drop_last(), key).push(bucket.last().1)
    } else {
        values_of(bucket.drop_last(), key)
    }
}

/// The keys of the pairs of the bucket that have the value, in order.
pub open spec fn keys_of(bucket: Seq<(Key, Data)>, value: Data) -> Seq<Key>
    decreases bucket.len(),
{
    if bucket.len() == 0 {
        Seq::empty()
    } else if bucket.last().1 == value {
        keys_of(bucket.drop_last(), value).push(bucket.last().0)
    } else {
        keys_of(bucket.drop_last(), value)
    }
}

/// The keys of the pairs of the table that have the value, bucket by bucket.
pub open spec fn table_keys_of(table: Seq<Seq<(Key, Data)>>, value: Data) -> Seq<Key>
    decreases table.len(),
{
    if table.len() == 0 {
        Seq::empty()
    } else {
        table_keys_of(table.drop_last(), value) + keys_of(table.last(), value)
    }
}

/// The pairs of the table in the order in which emptying it takes them
/// out: bucket by bucket, each bucket from its end.
pub open spec fn drained(table: Seq<Seq<(Key, Data)>>) -> Seq<(Key, Data)>
    decreases table.len(),
{
    if table.len() == 0 {
        Seq::empty()
    } else {
        drained(table.drop_last()) + table.last().reverse()
    }
}

/// The pairs among `entries` that belong to bucket `index` of a table of
/// `buckets` buckets, in order.
pub open spec fn entries_for(entries: Seq<(Key, Data)>, index: int, buckets: int) -> Seq<
    (Key, Data),
>
    decreases entries.len(),
{
    if entries.len() == 0 {
        Seq::empty()
    } else if bucket_of(entries.last().0, buckets) == index {
        entries_for(entries.drop_last(), index, buckets).push(entries.last())
    } else {
        entries_for(entries.drop_last(), index, buckets)
    }
}

/// What a list of references refers to.
pub open spec fn referents<T>(refs: Seq<&T>) -> Seq<T> {
    Seq::new(refs.len(), |i: int| *refs[i])
}

/// The value stored first under the key, or the default where the key has
/// no value or the table no bucket.
pub fn get_one_or_default<'a>(
    table: &'a [Vec<(Key, Data)>],
    key: &Key,
    default_value: &'a Data,
) -> (found: &'a Data)
    ensures
        table@.len() == 0 ==> *found == *default_value,
        table@.len() > 0 ==> *found == match first_value(
            table@[bucket_of(*key, table@.len() as int)]@,
            *key,
        ) {
            Some(value) => value,
            None => *default_value,
        },
{
    if table.len() > 0 {
        let b = bucket_index(key, table.len());
        let bucket = &table[b];
        let mut i: usize = 0;
        assert(bucket@.skip(0) == bucket@);
        while i < bucket.len()
            invariant
                i <= bucket.len(),
                table@.len() > 0,
                bucket@ == table@[bucket_of(*key, table@.len() as int)]@,
                first_value(bucket@, *key) == first_value(bucket@.skip(i as int), *key),
            decreases bucket.len() - i,
        {
            assert(bucket@.skip(i as int).drop_first() == bucket@.skip(i + 1));
            assert(bucket@.skip(i as int)[0] == bucket@[i as int]);
            if bucket[i].0 == *key {
                return &bucket[i].1;
            }
            i = i + 1;
        }
    }
    default_value
}

/// For each key, in order, the key and all the values stored under it.
pub fn multi_get<'table, 'keys>(table: &'table [Vec<(Key, Data)>], keys: &'keys [Key]) -> (res: Vec<
    (&'keys Key, Vec<&'table Data>),
>)
    ensures
        res@.len() == keys@.len(),
        forall|k: int| 0 <= k < keys@.len() ==> *(#[trigger] res@[k]).0 == keys@[k],
        forall|k: int|
            0 <= k < keys@.len() ==> referents((#[trigger] res@[k]).1@) == if table@.len() == 0 {
                Seq::<Data>::empty()
            } else {
                values_of(table@[bucket_of(keys@[k], table@.len() as int)]@, keys@[k])
            },
{
    let mut res: Vec<(&Key, Vec<&Data>)> = Vec::new();
    let n = table.len();
    let mut k: usize = 0;
    while k < keys.len()
        invariant
            k <= keys.len(),
            n == table@.len(),
            res@.len() == k,
            forall|q: int| 0 <= q < k ==> *(#[trigger] res@[q]).0 == keys@[q],
            forall|q: int|
                0 <= q < k ==> referents((#[trigger] res@[q]).1@) == if table@.len() == 0 {
                    Seq::<Data>::empty()
                } else {
                    values_of(table@[bucket_of(keys@[q], table@.len() as int)]@, keys@[q])
                },
        decreases keys.len() - k,
    {
        let key = &keys[k];
        let mut values: Vec<&Data> = Vec::new();
        assert(referents(values@) =~= Seq::<Data>::empty());
        if n != 0 {
            let b = bucket_index(key, n);
            let bucket = &table[b];
            let mut i: usize = 0;
            assert(bucket@.take(0) =~= Seq::<(Key, Data)>::empty());
            while i < bucket.len()
                invariant
                    i <= bucket.len(),
                    referents(values@) == values_of(bucket@.take(i as int), *key),
                decreases bucket.len() - i,
            {
                assert(bucket@.take(i + 1).drop_last() == bucket@.take(i as int));
                let ghost before = values@;
                if bucket[i].0 == *key {
                    values.push(&bucket[i].1);
                    assert(referents(values@) =~= referents(before).push(bucket@[i as int].1));
                }
                i = i + 1;
            }
            assert(bucket@.take(bucket@.len() as int) == bucket@);
        }
        res.push((key, values));
        k = k + 1;
    }
    res
}

/// The keys under which the value is stored, bucket by bucket.
pub fn find_keys_of_data<'a>(table: &'a Vec<Vec<(Key, Data)>>, value: &Data) -> (res: Vec<&'a Key>)
    ensures
        referents(res@) == table_keys_of(table_view(table@), *value),
{
    let mut res: Vec<&Key> = Vec::new();
    let ghost view = table_view(table@);
    let mut b: usize = 0;
    assert(referents(res@) =~= Seq::<Key>::empty());
    assert(view.take(0) =~= Seq::<Seq<(Key, Data)>>::empty());
    while b < table.len()
        invariant
            b <= table.len(),
            view == table_view(table@),
            referents(res@) == table_keys_of(view.take(b as int), *value),
        decreases table.len() - b,
    {
        let bucket = &table[b];
        let ghost start = referents(res@);
        let mut i: usize = 0;
        assert(bucket@.take(0) =~= Seq::<(Key, Data)>::empty());
        assert(start + Seq::<Key>::empty() =~= start);
        while i < bucket.len()
            invariant
                i <= bucket.len(),
                referents(res@) == start + keys_of(bucket@.take(i as int), *value),
            decreases bucket.len() - i,
        {
            assert(bucket@.take(i + 1).drop_last() == bucket@.take(i as int));
            let ghost before = res@;
            if bucket[i].1 == *value {
                res.push(&bucket[i].0);
                assert(referents(res@) =~= referents(before).push(bucket@[i as int].0));
                assert(referents(res@) =~= start + keys_of(bucket@.take(i + 1), *value));
            }
            i = i + 1;
        }
        assert(bucket@.take(bucket@.len() as int) == bucket@);
        assert(view.take(b + 1).drop_last() == view.take(b as int));
        assert(view.take(b + 1).last() == bucket@);
        b = b + 1;
    }
    assert(view.take(view.len() as int) == view);
    res
}

/// Moves the pairs into a table of `new_len` buckets, each into the bucket
/// of its key, in the order in which the old table is emptied. A table
/// without buckets keeps nothing.
pub fn resize(table: &mut Vec<Vec<(Key, Data)>>, new_len: usize)
    ensures
        final(table)@.len() == new_len,
        forall|j: int|
            0 <= j < new_len ==> (#[trigger] final(table)@[j])@ == entries_for(
                drained(table_view(old(table)@)),
                j,
                new_len as int,
            ),
{
    let mut new_table = new_hashmap(new_len);
    let ghost source = table_view(table@);
    if new_len != 0 {
        let mut b: usize = 0;
        assert(source.take(0) =~= Seq::<Seq<(Key, Data)>>::empty());
        while b < table.len()
            invariant
                b <= table.len(),
                new_len != 0,
                table@.len() == source.len(),
                new_table@.len() == new_len,
                forall|j: int| b <= j < table@.len() ==> (#[trigger] table@[j])@ == source[j],
                forall|j: int|
                    0 <= j < new_len ==> (#[trigger] new_table@[j])@ == entries_for(
                        drained(source.take(b as int)),
                        j,
                        new_len as int,
                    ),
            decreases table.len() - b,
        {
            let ghost done = drained(source.take(b as int));
            let ghost bucket = source[b as int];
            assert(done + bucket.reverse().take(0) =~= done);
            assert(bucket.take(bucket.len() as int) == bucket);
            while table[b].len() > 0
                invariant
                    b < table.len(),
                    new_len != 0,
                    table@.len() == source.len(),
                    new_table@.len() == new_len,
                    bucket == source[b as int],
                    table@[b as int]@.len() <= bucket.len(),
                    table@[b as int]@ == bucket.take(table@[b as int]@.len() as int),
                    forall|j: int| b < j < table@.len() ==> (#[trigger] table@[j])@ == source[j],
                    forall|j: int|
                        0 <= j < new_len ==> (#[trigger] new_table@[j])@ == entries_for(
                            done + bucket.reverse().take(bucket.len() - table@[b as int]@.len()),
                            j,
                            new_len as int,
                        ),
                decreases table@[b as int]@.len(),
            {
                let ghost left = table@[b as int]@.len() as int;
                let ghost taken = bucket.len() - left;
                let ghost so_far = done + bucket.reverse().take(taken);
                let popped = table[b].pop();
                let (key, data) = popped.unwrap();
                let new_index = bucket_index(&key, new_len);
                let ghost old_new = new_table@;
                new_table[new_index].push((key, data));
                proof {
                    let next = done + bucket.reverse().take(taken + 1);
                    assert((key, data) == bucket[left - 1]);
                    assert(bucket.reverse()[taken] == bucket[left - 1]);
                    assert(next.drop_last() =~= so_far);
                    assert(next.last() == (key, data));
                    assert(table@[b as int]@ =~= bucket.take(left - 1));
                    assert forall|j: int| 0 <= j < new_len implies (#[trigger] new_table@[j])@
                        == entries_for(next, j, new_len as int) by {
                        if j != new_index {
                            assert(new_table@[j]@ == old_new[j]@);
                        }
                    }
                }
            }
            proof {
                assert(bucket.reverse().take(bucket.len() as int) == bucket.reverse());
                assert(source.take(b + 1).drop_last() == source.take(b as int));
                assert(source.take(b + 1).last() == bucket);
            }
            b = b + 1;
        }
        assert(source.take(source.len() as int) == source);
    }
    *table = new_table;
}

} // verus!
