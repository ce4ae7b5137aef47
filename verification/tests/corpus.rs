use blackbox_fuzz::corpus::{CorpusBuilder, CorpusError};

fn id(text: &str) -> String {
    String::from(text)
}

#[test]
fn empty_corpus_is_turned_down() {
    let result = CorpusBuilder::new().finish();
    assert_eq!(result.err(), Some(CorpusError::EmptyCorpus));
}

#[test]
fn empty_corpus_diagnostic_mentions_the_empty_corpus() {
    assert_eq!(CorpusError::EmptyCorpus.message(), "Corpus is empty");
    assert!(CorpusError::EmptyCorpus.message().to_lowercase().contains("corpus"));
    assert!(CorpusError::EmptyCorpus.message().to_lowercase().contains("empty"));
}

#[test]
fn empty_seed_diagnostic() {
    assert_eq!(CorpusError::EmptySeed.message(), "Seed is empty");
}

#[test]
fn empty_seed_is_turned_down_and_changes_nothing() {
    let mut builder = CorpusBuilder::new();
    assert_eq!(builder.insert(id("a"), vec![1]), Ok(()));
    assert_eq!(builder.insert(id("b"), Vec::new()), Err(CorpusError::EmptySeed));
    assert_eq!(builder.len(), 1);
    let corpus = builder.finish().unwrap();
    assert_eq!(corpus.len(), 1);
    assert_eq!(corpus.seed(0).id, "a");
    assert_eq!(corpus.seed(0).bytes, vec![1]);
}

#[test]
fn corpus_of_only_empty_seeds_is_empty() {
    let mut builder = CorpusBuilder::new();
    assert_eq!(builder.insert(id("a"), Vec::new()), Err(CorpusError::EmptySeed));
    assert_eq!(builder.insert(id("b"), Vec::new()), Err(CorpusError::EmptySeed));
    assert_eq!(builder.len(), 0);
    assert_eq!(builder.finish().err(), Some(CorpusError::EmptyCorpus));
}

#[test]
fn seeds_keep_the_order_they_came_in() {
    let mut builder = CorpusBuilder::new();
    builder.insert(id("z"), vec![1]).unwrap();
    builder.insert(id("a"), vec![2, 2]).unwrap();
    builder.insert(id("m"), vec![3, 3, 3]).unwrap();
    let corpus = builder.finish().unwrap();
    assert_eq!(corpus.len(), 3);
    assert_eq!(corpus.seed(0).id, "z");
    assert_eq!(corpus.seed(1).id, "a");
    assert_eq!(corpus.seed(2).id, "m");
    assert_eq!(corpus.seed(2).bytes, vec![3, 3, 3]);
}

#[test]
fn same_identifier_replaces_the_earlier_seed_in_place() {
    let mut builder = CorpusBuilder::new();
    builder.insert(id("a"), vec![1]).unwrap();
    builder.insert(id("b"), vec![2]).unwrap();
    builder.insert(id("a"), vec![9, 9]).unwrap();
    assert_eq!(builder.len(), 2);
    let corpus = builder.finish().unwrap();
    assert_eq!(corpus.seed(0).id, "a");
    assert_eq!(corpus.seed(0).bytes, vec![9, 9]);
    assert_eq!(corpus.seed(1).id, "b");
    assert_eq!(corpus.seed(1).bytes, vec![2]);
}

#[test]
fn empty_seed_does_not_replace_an_earlier_one() {
    let mut builder = CorpusBuilder::new();
    builder.insert(id("a"), vec![1]).unwrap();
    assert_eq!(builder.insert(id("a"), Vec::new()), Err(CorpusError::EmptySeed));
    let corpus = builder.finish().unwrap();
    assert_eq!(corpus.seed(0).bytes, vec![1]);
}
