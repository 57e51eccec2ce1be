# SonicDisk

SonicDisk mounts a Subsonic server as a drive in Windows, by means of Dokan. Artists are folders
at the top level, their albums are folders in them, and songs are files that are fetched from the
server as they are read. Nothing can be written: the file system never makes, changes or moves a
file.

`src/` is a library that decides what the drive shows and how each request is answered. It is
written in Verus, and its contracts and laws are proved. It neither talks to a server nor to
Windows: what has to be known from there is handed to it.

- `subsonic`, `catalogue`: albums sorted into one folder for each artist; which artist, album or
  song a path names, what a folder shows, and which song is read.
- `names`, `wide`, `text`, `fields`, `nt`: names that are told apart without regard to ASCII case,
  UTF-16, decimal numbers, fields in debug texts, and the numbers of Windows.
- `tree`, `path`, `stat`, `handle`, `security`: the tree below the root, paths in it, and what is
  kept about entries and open handles.
- `opening`, `handler`, `requests`, `offering`, `updates`: the file system and its answers.
- `folder_laws`, `grouping_laws`, `handler_laws`, `name_laws`: what holds of all of this together.

`app/` is the program: its arguments, the requests to the server, the calls to Windows, and the
callbacks of Dokan. `tests/` exercises the library on concrete values.
