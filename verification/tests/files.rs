use sprinkles_os::fs::{Directory, DirectoryType, File, Filesystem, FsError, MemoryFS, Path, Permissions};

fn read_write() -> Permissions {
    Permissions { read: true, write: true, execute: false }
}

fn path(names: &[&str]) -> Path {
    let mut directories = Vec::new();
    for (i, name) in names.iter().enumerate() {
        let variant = if i + 1 == names.len() { DirectoryType::File } else { DirectoryType::Folder };
        directories.push(Directory::new(variant, name.to_string()));
    }
    Path::new(directories)
}

#[test]
fn overwrite_replaces_the_contents() {
    let mut file = File::new(read_write(), vec![1, 2, 3]);
    assert_eq!(file.len(), 3);
    file.overwrite(vec![9, 8]);
    assert_eq!(file.len(), 2);
    assert_eq!(*file.index(0), 9);
    assert_eq!(*file.index(1), 8);
    assert_eq!(file, File::new(read_write(), vec![9, 8]));
}

#[test]
fn read_string_decodes_utf8() {
    let file = File::new(read_write(), "grüß dich".as_bytes().to_vec());
    assert_eq!(file.read_string().unwrap(), "grüß dich");
    assert_eq!(File::new(read_write(), vec![]).read_string().unwrap(), "");
}

#[test]
fn read_string_refuses_invalid_utf8() {
    let file = File::new(read_write(), vec![0x66, 0xff, 0x6f]);
    assert!(file.read_string().is_err());
    assert!(File::new(read_write(), vec![0xc3]).read_string().is_err());
}

#[test]
fn index_range_returns_the_bytes_between() {
    let file = File::new(read_write(), vec![10, 20, 30, 40, 50]);
    assert_eq!(file.index_range(1, 4), &[20, 30, 40]);
    assert_eq!(file.index_range(2, 2), &[] as &[u8]);
    assert_eq!(file.index_range(0, 5), &[10, 20, 30, 40, 50]);
}

#[test]
fn paths_are_compared_by_their_components() {
    assert!(path(&["etc", "motd"]).same(&path(&["etc", "motd"])));
    assert!(!path(&["etc", "motd"]).same(&path(&["etc", "hosts"])));
    assert!(!path(&["etc", "motd"]).same(&path(&["etc"])));
    assert!(!path(&["motd"]).same(&Path::new(vec![Directory::new(
        DirectoryType::Url,
        "motd".to_string()
    )])));
    assert!(path(&[]).same(&path(&[])));
    let folder = Directory::new(DirectoryType::Folder, "etc".to_string());
    assert!(folder.same(&Directory::new(DirectoryType::Folder, "etc".to_string())));
    assert!(!folder.same(&Directory::new(DirectoryType::File, "etc".to_string())));
}

#[test]
fn memory_fs_keeps_files_by_path() {
    let mut fs = MemoryFS::init();
    assert_eq!(fs.insert(path(&["etc", "motd"]), File::new(read_write(), b"hello".to_vec())), None);
    assert_eq!(fs.insert(path(&["etc", "hosts"]), File::new(read_write(), b"::1".to_vec())), None);
    assert_eq!(fs.index(path(&["etc", "motd"])).read_string().unwrap(), "hello");
    assert_eq!(fs.get_dir(path(&["etc", "hosts"])).unwrap().len(), 3);
    assert_eq!(fs.read_dir(path(&["etc", "motd"])).unwrap(), b"hello");
    let replaced = fs.insert(path(&["etc", "motd"]), File::new(read_write(), b"bye".to_vec()));
    assert_eq!(replaced, Some(File::new(read_write(), b"hello".to_vec())));
    assert_eq!(fs.read_dir(path(&["etc", "motd"])).unwrap(), b"bye");
    assert_eq!(fs.read_dir(path(&["etc", "hosts"])).unwrap(), b"::1");
}

#[test]
fn write_dir_changes_one_file() {
    let mut fs = MemoryFS::init();
    let locked = Permissions { read: true, write: false, execute: true };
    fs.insert(path(&["a"]), File::new(locked, vec![1]));
    fs.insert(path(&["b"]), File::new(read_write(), vec![2]));
    assert_eq!(fs.write_dir(path(&["a"]), vec![7, 7, 7]), Ok::<(), FsError>(()));
    assert_eq!(*fs.index(path(&["a"])), File::new(locked, vec![7, 7, 7]));
    assert_eq!(*fs.index(path(&["b"])), File::new(read_write(), vec![2]));
    fs.index_mut(path(&["b"])).overwrite(vec![]);
    assert_eq!(fs.index(path(&["b"])).len(), 0);
    assert_eq!(MemoryFS::read_file(fs.index(path(&["a"]))).unwrap(), "\u{7}\u{7}\u{7}");
}
